use oximod::context::{
    ClientHandle, ConnectionContext, get_default_db, get_global_client, set_default_db,
    set_global_client,
};
use oximod::errors::{OximodError, Printable};
use oximod::record::Record;
use oximod::schema::{FieldDescriptor, FieldKind, Schema, ValidateArgs, ValidationRule, rules_of_args};
use oximod::strings::{i64_dec, u64_dec};
use oximod::validate::validate;
use oximod::value::FieldValue;

fn rule_field(name: &str, kind: FieldKind, optional: bool, rules: Vec<ValidationRule>) -> FieldDescriptor {
    FieldDescriptor {
        name: name.to_string(),
        kind,
        optional,
        default: None,
        rules,
        index: None,
    }
}

fn message_of(r: Result<(), OximodError>) -> String {
    match r {
        Err(OximodError::ValidationError(m)) => m,
        _ => panic!("expected a validation error"),
    }
}

#[test]
fn required_absent_fails_naming_the_field() {
    // Whatever the other fields hold, a record with a required field
    // absent never validates, and when that is the first failure the
    // error names the field.
    let schema = Schema::build(
        "test".to_string(),
        "validation_test".to_string(),
        vec![
            rule_field("name", FieldKind::Text, false, Vec::new()),
            rule_field("role", FieldKind::Text, true, vec![ValidationRule::Required]),
        ],
    )
    .unwrap();

    let rec = Record::new(&schema).set(&schema, "name", FieldValue::Text("anything".to_string()));
    let m = message_of(validate(&schema, &rec));
    assert_eq!(m, "Field 'role' is required");
}

#[test]
fn first_failure_wins_across_fields() {
    // Fail-fast across the whole record: the error comes from the first
    // failing rule in declaration order, not a later one.
    let schema = Schema::build(
        "test".to_string(),
        "validation_test".to_string(),
        vec![
            rule_field("name", FieldKind::Text, false, vec![ValidationRule::MinLength(5)]),
            rule_field("role", FieldKind::Text, true, vec![ValidationRule::Required]),
        ],
    )
    .unwrap();

    let rec = Record::new(&schema).set(&schema, "name", FieldValue::Text("abc".to_string()));
    let m = message_of(validate(&schema, &rec));
    assert_eq!(m, "Field 'name' must be at least 5 characters long");
}

#[test]
fn length_failures_cite_the_bound() {
    let schema = Schema::build(
        "test".to_string(),
        "validation_test".to_string(),
        vec![rule_field(
            "name",
            FieldKind::Text,
            false,
            vec![ValidationRule::MinLength(5), ValidationRule::MaxLength(10)],
        )],
    )
    .unwrap();

    let short = Record::new(&schema).set(&schema, "name", FieldValue::Text("abc".to_string()));
    assert_eq!(message_of(validate(&schema, &short)), "Field 'name' must be at least 5 characters long");

    let long = Record::new(&schema)
        .set(&schema, "name", FieldValue::Text("abcdefghijk".to_string()));
    assert_eq!(message_of(validate(&schema, &long)), "Field 'name' must be at most 10 characters long");

    let fits = Record::new(&schema).set(&schema, "name", FieldValue::Text("abcdef".to_string()));
    assert!(validate(&schema, &fits).is_ok());
}

#[test]
fn sign_rules_on_zero_one_and_minus_one() {
    // 0 fails Positive and Negative but passes NonNegative; -1 passes
    // Negative and fails the other two; 1 passes Positive and
    // NonNegative and fails Negative.
    let single = |rule: ValidationRule| {
        Schema::build(
            "test".to_string(),
            "validation_test".to_string(),
            vec![rule_field("n", FieldKind::Int, false, vec![rule])],
        )
        .unwrap()
    };
    let positive = single(ValidationRule::Positive);
    let negative = single(ValidationRule::Negative);
    let non_negative = single(ValidationRule::NonNegative);
    let with = |schema: &Schema, v: i64| {
        validate(schema, &Record::new(schema).set(schema, "n", FieldValue::Int(v)))
    };

    assert!(with(&positive, 0).is_err());
    assert!(with(&negative, 0).is_err());
    assert!(with(&non_negative, 0).is_ok());

    assert!(with(&positive, -1).is_err());
    assert!(with(&negative, -1).is_ok());
    assert!(with(&non_negative, -1).is_err());

    assert!(with(&positive, 1).is_ok());
    assert!(with(&negative, 1).is_err());
    assert!(with(&non_negative, 1).is_ok());
}

#[test]
fn email_rule_exact_cases() {
    let schema = Schema::build(
        "test".to_string(),
        "validation_test".to_string(),
        vec![rule_field("email", FieldKind::Text, true, vec![ValidationRule::Email])],
    )
    .unwrap();
    let with = |v: &str| {
        validate(
            &schema,
            &Record::new(&schema).set(&schema, "email", FieldValue::Text(v.to_string())),
        )
    };

    assert!(with("user@example.com").is_ok());
    assert!(with("invalidemail.com").is_err());
    assert!(with("user@domain").is_err());
    assert!(with("@example.com").is_err());
    assert!(with("user@").is_err());
    assert!(with("us@er@example.com").is_err());
}

#[test]
fn schema_build_rejects_malformed_declarations() {
    // A rule on a kind it cannot apply to.
    let bad_rule = Schema::build(
        "test".to_string(),
        "c".to_string(),
        vec![rule_field("age", FieldKind::Int, false, vec![ValidationRule::MinLength(5)])],
    );
    assert!(bad_rule.is_err());

    // A default of the wrong kind.
    let bad_default = Schema::build(
        "test".to_string(),
        "c".to_string(),
        vec![FieldDescriptor {
            name: "age".to_string(),
            kind: FieldKind::Int,
            optional: false,
            default: Some(FieldValue::Text("zero".to_string())),
            rules: Vec::new(),
            index: None,
        }],
    );
    assert!(bad_default.is_err());

    // An index order other than plus or minus one.
    let bad_order = Schema::build(
        "test".to_string(),
        "c".to_string(),
        vec![FieldDescriptor {
            name: "age".to_string(),
            kind: FieldKind::Int,
            optional: false,
            default: None,
            rules: Vec::new(),
            index: Some(oximod::schema::IndexArgs { order: Some(2), ..Default::default() }),
        }],
    );
    assert!(bad_order.is_err());

    // A duplicate field name.
    let duplicate = Schema::build(
        "test".to_string(),
        "c".to_string(),
        vec![
            rule_field("age", FieldKind::Int, false, Vec::new()),
            rule_field("age", FieldKind::Int, false, Vec::new()),
        ],
    );
    assert!(format!("{:?}", duplicate).contains("declared twice"));

    // The reserved identifier key.
    let reserved = Schema::build(
        "test".to_string(),
        "c".to_string(),
        vec![rule_field("_id", FieldKind::Int, false, Vec::new())],
    );
    assert!(reserved.is_err());
}

#[test]
fn validate_args_switches_compile_to_no_rules() {
    let none = rules_of_args(ValidateArgs { required: Some(false), ..Default::default() });
    assert_eq!(none.len(), 0);
}

#[test]
fn errors_render_with_kind_prefixes() {
    let conn = OximodError::ConnectionError("refused".to_string());
    assert_eq!(conn.message(), "Failed to connect to db: refused");

    let init = OximodError::GlobalClientInitError("twice".to_string());
    assert_eq!(init.message(), "Failed to set CLIENT");

    let missing = OximodError::GlobalClientMissing("none".to_string());
    assert_eq!(missing.message(), "CLIENT not found: none");

    let ser = OximodError::SerializationError("bad".to_string());
    assert_eq!(ser.message(), "Serialization error: bad");

    let agg = OximodError::AggregationError("bad stage".to_string());
    assert_eq!(agg.message(), "Aggregation error: bad stage");

    let idx = OximodError::IndexError("dup".to_string());
    assert_eq!(idx.message(), "Index error: dup");

    let val = OximodError::ValidationError("Field 'x' is required".to_string());
    assert_eq!(val.message(), "Validation error: Field 'x' is required");

    assert_eq!(
        val.attach_printables("Declare the field before saving."),
        "Validation error: Field 'x' is required\nSuggestion: Declare the field before saving."
    );
}

#[test]
fn decimal_rendering_is_exact() {
    assert_eq!(u64_dec(0).as_str(), "0");
    assert_eq!(u64_dec(10).as_str(), "10");
    assert_eq!(u64_dec(90210).as_str(), "90210");
    assert_eq!(i64_dec(-42).as_str(), "-42");
    assert_eq!(i64_dec(7).as_str(), "7");
    assert_eq!(i64_dec(i64::MIN).as_str(), "-9223372036854775808");
}

#[test]
fn client_slot_is_set_once() {
    let mut ctx = ConnectionContext::new();

    let missing = get_global_client(&ctx);
    assert!(matches!(missing, Err(OximodError::GlobalClientMissing(_))));

    set_global_client(&mut ctx, ClientHandle { tag: 7 }).unwrap();
    assert_eq!(get_global_client(&ctx).unwrap(), ClientHandle { tag: 7 });

    let again = set_global_client(&mut ctx, ClientHandle { tag: 8 });
    assert!(matches!(again, Err(OximodError::GlobalClientInitError(_))));
    assert_eq!(get_global_client(&ctx).unwrap(), ClientHandle { tag: 7 });
}

#[test]
fn default_db_is_set_once() {
    let mut ctx = ConnectionContext::new();

    assert!(get_default_db(&ctx).is_err());

    set_default_db(&mut ctx, "test".to_string()).unwrap();
    assert_eq!(get_default_db(&ctx).unwrap(), "test");

    let again = set_default_db(&mut ctx, "other".to_string());
    assert!(matches!(again, Err(OximodError::GlobalClientInitError(_))));
    assert_eq!(get_default_db(&ctx).unwrap(), "test");
}
