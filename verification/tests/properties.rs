use perstruct::record::{Record, SetError};
use perstruct::schema::{FieldDescriptor, Schema, SchemaError};
use perstruct::value::{FieldKind, Value};

/// One field of every kind, an aliased key, an explicit default and an
/// excluded field.
fn mixed_schema() -> Schema {
    Schema::build(vec![
        FieldDescriptor::new("count".to_string(), FieldKind::Int).with_key("n".to_string()),
        FieldDescriptor::new("label".to_string(), FieldKind::Text)
            .with_default(Value::Text("hello".to_string())),
        FieldDescriptor::new("enabled".to_string(), FieldKind::Flag),
        FieldDescriptor::new("tags".to_string(), FieldKind::List),
        FieldDescriptor::new("extra".to_string(), FieldKind::Object),
        FieldDescriptor::new("scratch".to_string(), FieldKind::Int).excluded(),
    ])
    .unwrap()
}

#[test]
fn default_purity() {
    let r1 = Record::new(mixed_schema());
    let r2 = Record::new(mixed_schema());
    for i in 0..r1.len() {
        assert_eq!(r1.get(i), r2.get(i));
    }
    assert_eq!(r1.dirty_fields(), Vec::<String>::new());
    assert_eq!(r2.dirty_fields(), Vec::<String>::new());
    assert_eq!(r1.get(0), &Value::Int(0));
    assert_eq!(r1.get(1), &Value::Text("hello".to_string()));
    assert_eq!(r1.get(2), &Value::Flag(false));
    assert_eq!(r1.get(3), &Value::List(Vec::new()));
    assert_eq!(r1.get(4), &Value::Object("{}".to_string()));
    assert_eq!(r1.get(5), &Value::Int(0));
}

#[test]
fn set_marks_dirty_even_without_change() {
    let mut r = Record::new(mixed_schema());
    // storing the value the field already holds still marks it dirty
    r.set(0, Value::Int(0)).unwrap();
    assert_eq!(r.dirty_fields(), vec!["n".to_string()]);
    assert!(r.is_dirty(0));
    // setting again keeps a single membership, not a second entry
    r.set(0, Value::Int(0)).unwrap();
    assert_eq!(r.dirty_fields(), vec!["n".to_string()]);
}

#[test]
fn round_trip_through_changes() {
    let mut r = Record::new(mixed_schema());
    r.set(0, Value::Int(-7)).unwrap();
    r.set(1, Value::Text("with \"quotes\" and \\slashes".to_string()))
        .unwrap();
    r.set(2, Value::Flag(true)).unwrap();
    r.set(3, Value::List(vec!["x".to_string(), "y z".to_string()]))
        .unwrap();
    r.set(4, Value::Object("{\"inner\": [1, 2]}".to_string())).unwrap();
    let changes = r.get_changes();
    assert_eq!(changes.len(), 5);

    let loaded = Record::from_map(mixed_schema(), &changes);
    assert_eq!(loaded.deserialization_errors, Vec::<(String, String)>::new());
    assert_eq!(loaded.unknown_fields, Vec::<String>::new());
    for i in 0..5 {
        assert_eq!(loaded.value.get(i), r.get(i));
        assert!(!loaded.value.is_dirty(i));
    }
}

#[test]
fn error_isolation() {
    let entries = vec![
        ("n".to_string(), "41".to_string()),
        ("label".to_string(), "not json".to_string()),
        ("enabled".to_string(), "true".to_string()),
        ("tags".to_string(), "[\"a\"]".to_string()),
        ("extra".to_string(), "{\"k\": null}".to_string()),
    ];
    let loaded = Record::from_map(mixed_schema(), &entries);
    assert_eq!(loaded.deserialization_errors.len(), 1);
    assert_eq!(loaded.deserialization_errors[0].0, "label".to_string());
    assert!(!loaded.deserialization_errors[0].1.is_empty());
    // the malformed field keeps its default and stays dirty
    assert_eq!(loaded.value.get(1), &Value::Text("hello".to_string()));
    assert!(loaded.value.is_dirty(1));
    // the well-formed fields are loaded and clean
    assert_eq!(loaded.value.get(0), &Value::Int(41));
    assert_eq!(loaded.value.get(2), &Value::Flag(true));
    assert_eq!(loaded.value.get(3), &Value::List(vec!["a".to_string()]));
    assert_eq!(loaded.value.get(4), &Value::Object("{\"k\": null}".to_string()));
    for i in [0usize, 2, 3, 4] {
        assert!(!loaded.value.is_dirty(i));
    }
}

#[test]
fn unknown_field_reporting() {
    let known = vec![("n".to_string(), "5".to_string())];
    let mut with_unknown = known.clone();
    with_unknown.push(("no such key".to_string(), "1".to_string()));
    // an excluded field's key is not a known key either
    with_unknown.push(("scratch".to_string(), "1".to_string()));

    let plain = Record::from_map(mixed_schema(), &known);
    let noisy = Record::from_map(mixed_schema(), &with_unknown);
    assert_eq!(
        noisy.unknown_fields,
        vec!["no such key".to_string(), "scratch".to_string()]
    );
    assert_eq!(noisy.deserialization_errors, plain.deserialization_errors);
    for i in 0..plain.value.len() {
        assert_eq!(noisy.value.get(i), plain.value.get(i));
        assert_eq!(noisy.value.is_dirty(i), plain.value.is_dirty(i));
    }
}

#[test]
fn acknowledge_idempotence() {
    let mut r = Record::new(mixed_schema());
    r.set(0, Value::Int(3)).unwrap();
    r.set(2, Value::Flag(true)).unwrap();
    assert_eq!(r.dirty_fields().len(), 2);
    r.acknowledge_saved();
    assert_eq!(r.dirty_fields(), Vec::<String>::new());
    assert_eq!(r.get_changes(), Vec::<(String, String)>::new());
    // a second acknowledgement, on an empty dirty set, is a no-op
    r.acknowledge_saved();
    assert_eq!(r.dirty_fields(), Vec::<String>::new());
    assert_eq!(r.get(0), &Value::Int(3));
    assert_eq!(r.get(2), &Value::Flag(true));
}

#[test]
fn seeded_dirty_on_partial_load() {
    // every non-excluded key starts dirty; a successful load clears its key
    let entries = vec![("n".to_string(), "1".to_string())];
    let loaded = Record::from_map(mixed_schema(), &entries);
    assert_eq!(
        loaded.value.dirty_fields(),
        vec![
            "label".to_string(),
            "enabled".to_string(),
            "tags".to_string(),
            "extra".to_string()
        ]
    );
    // an excluded field is never dirty
    assert!(!loaded.value.is_dirty(5));
}

#[test]
fn excluded_fields_stay_private() {
    let mut r = Record::new(mixed_schema());
    // not in the key catalogue
    assert_eq!(
        r.schema().keys(),
        vec![
            "n".to_string(),
            "label".to_string(),
            "enabled".to_string(),
            "tags".to_string(),
            "extra".to_string()
        ]
    );
    // not settable
    assert_eq!(r.set(5, Value::Int(9)), Err(SetError::ExcludedField));
    assert_eq!(r.get(5), &Value::Int(0));
    // never exported
    assert_eq!(r.get_changes(), Vec::<(String, String)>::new());
}

#[test]
fn set_refusals_leave_the_record_alone() {
    let mut r = Record::new(mixed_schema());
    assert_eq!(r.set(0, Value::Text("nope".to_string())), Err(SetError::KindMismatch));
    assert_eq!(r.set(4, Value::Object("not an object".to_string())), Err(SetError::InvalidValue));
    assert_eq!(r.set(4, Value::Object("[1]".to_string())), Err(SetError::InvalidValue));
    assert_eq!(r.get(0), &Value::Int(0));
    assert_eq!(r.get(4), &Value::Object("{}".to_string()));
    assert_eq!(r.dirty_fields(), Vec::<String>::new());

    let refused = r.update(0, |v| match v {
        Value::Int(_) => Value::Flag(true),
        other => other,
    });
    assert_eq!(refused, Err(SetError::KindMismatch));
    assert_eq!(r.get(0), &Value::Int(0));
    assert_eq!(r.dirty_fields(), Vec::<String>::new());
}

#[test]
fn schema_build_errors() {
    let dup_name = Schema::build(vec![
        FieldDescriptor::new("a".to_string(), FieldKind::Int),
        FieldDescriptor::new("a".to_string(), FieldKind::Text).with_key("other".to_string()),
    ]);
    assert_eq!(dup_name.err(), Some(SchemaError::DuplicateName("a".to_string())));

    let dup_key = Schema::build(vec![
        FieldDescriptor::new("a".to_string(), FieldKind::Int).with_key("k".to_string()),
        FieldDescriptor::new("b".to_string(), FieldKind::Int).with_key("k".to_string()),
    ]);
    assert_eq!(dup_key.err(), Some(SchemaError::DuplicateKey("k".to_string())));

    // an excluded field may reuse a key: it never reaches the store
    let excluded_shares_key = Schema::build(vec![
        FieldDescriptor::new("a".to_string(), FieldKind::Int).with_key("k".to_string()),
        FieldDescriptor::new("b".to_string(), FieldKind::Int)
            .with_key("k".to_string())
            .excluded(),
    ]);
    assert!(excluded_shares_key.is_ok());

    let wrong_kind_default = Schema::build(vec![FieldDescriptor::new(
        "a".to_string(),
        FieldKind::Int,
    )
    .with_default(Value::Text("1".to_string()))]);
    assert_eq!(wrong_kind_default.err(), Some(SchemaError::BadDefault("a".to_string())));

    let bad_object_default = Schema::build(vec![FieldDescriptor::new(
        "a".to_string(),
        FieldKind::Object,
    )
    .with_default(Value::Object("{broken".to_string()))]);
    assert_eq!(bad_object_default.err(), Some(SchemaError::BadDefault("a".to_string())));
}

#[test]
fn encoding_is_real_json() {
    // the exported text is the codec's rendering, not the value handed back
    let mut r = Record::new(mixed_schema());
    r.set(0, Value::Int(-3)).unwrap();
    r.set(1, Value::Text("a".to_string())).unwrap();
    r.set(2, Value::Flag(true)).unwrap();
    r.set(3, Value::List(vec!["x".to_string()])).unwrap();
    let mut changes = r.get_changes();
    changes.sort();
    assert_eq!(
        changes,
        vec![
            ("enabled".to_string(), "true".to_string()),
            ("label".to_string(), "\"a\"".to_string()),
            ("n".to_string(), "-3".to_string()),
            ("tags".to_string(), "[\"x\"]".to_string()),
        ]
    );
}

#[test]
fn decoding_is_real_json() {
    let entries = vec![
        ("n".to_string(), " 12 ".to_string()),
        ("label".to_string(), "\"quo\\\"te\"".to_string()),
        ("enabled".to_string(), "false".to_string()),
        ("tags".to_string(), "[\"a\", \"b\"]".to_string()),
    ];
    let loaded = Record::from_map(mixed_schema(), &entries);
    assert_eq!(loaded.deserialization_errors, Vec::<(String, String)>::new());
    assert_eq!(loaded.value.get(0), &Value::Int(12));
    assert_eq!(loaded.value.get(1), &Value::Text("quo\"te".to_string()));
    assert_eq!(loaded.value.get(2), &Value::Flag(false));
    assert_eq!(
        loaded.value.get(3),
        &Value::List(vec!["a".to_string(), "b".to_string()])
    );
}

#[test]
fn decode_error_inputs_per_kind() {
    let entries = vec![
        ("n".to_string(), "2147483648".to_string()),
        ("label".to_string(), "3".to_string()),
        ("enabled".to_string(), "\"yes\"".to_string()),
        ("tags".to_string(), "{}".to_string()),
        ("extra".to_string(), "[]".to_string()),
    ];
    let loaded = Record::from_map(mixed_schema(), &entries);
    assert_eq!(loaded.deserialization_errors.len(), 5);
    // every field keeps its default and stays dirty
    assert_eq!(loaded.value.get(0), &Value::Int(0));
    assert_eq!(loaded.value.get(1), &Value::Text("hello".to_string()));
    assert_eq!(loaded.value.get(2), &Value::Flag(false));
    assert_eq!(loaded.value.get(3), &Value::List(Vec::new()));
    assert_eq!(loaded.value.get(4), &Value::Object("{}".to_string()));
    for i in 0..5 {
        assert!(loaded.value.is_dirty(i));
    }
}

#[test]
fn concrete_scenario() {
    // a: int32 under key "b"; foo: a structured value whose declared producer
    // yields the empty object; bar: int32 with literal default 2
    let schema = Schema::build(vec![
        FieldDescriptor::new("a".to_string(), FieldKind::Int).with_key("b".to_string()),
        FieldDescriptor::new("foo".to_string(), FieldKind::Object)
            .with_default(Value::Object("{}".to_string())),
        FieldDescriptor::new("bar".to_string(), FieldKind::Int).with_default(Value::Int(2)),
    ])
    .unwrap();
    assert_eq!(
        schema.keys(),
        vec!["b".to_string(), "foo".to_string(), "bar".to_string()]
    );

    let mut r = Record::new(schema);
    assert_eq!(r.get(0), &Value::Int(0));
    assert_eq!(r.get(2), &Value::Int(2));
    assert_eq!(r.get(1), &Value::Object("{}".to_string()));

    r.set(0, Value::Int(1)).unwrap();
    r.set(2, Value::Int(7)).unwrap();
    r.set(2, Value::Int(8)).unwrap();
    assert_eq!(r.get(0), &Value::Int(1));
    assert_eq!(r.dirty_fields(), vec!["b".to_string(), "bar".to_string()]);

    let entries = vec![
        ("b".to_string(), "3".to_string()),
        ("foo".to_string(), "null".to_string()),
        ("bar".to_string(), "\"a\"".to_string()),
    ];
    let loaded = Record::from_map(
        Schema::build(vec![
            FieldDescriptor::new("a".to_string(), FieldKind::Int).with_key("b".to_string()),
            FieldDescriptor::new("foo".to_string(), FieldKind::Object)
                .with_default(Value::Object("{}".to_string())),
            FieldDescriptor::new("bar".to_string(), FieldKind::Int).with_default(Value::Int(2)),
        ])
        .unwrap(),
        &entries,
    );
    assert_eq!(loaded.value.get(0), &Value::Int(3));
    assert_eq!(loaded.value.get(2), &Value::Int(2));
    let mut error_keys: Vec<String> = loaded
        .deserialization_errors
        .iter()
        .map(|(k, _)| k.clone())
        .collect();
    error_keys.sort();
    assert_eq!(error_keys, vec!["bar".to_string(), "foo".to_string()]);
}

#[test]
fn lookup_by_name_and_key() {
    let schema = mixed_schema();
    assert_eq!(schema.index_of_name(&"count".to_string()), Some(0));
    assert_eq!(schema.index_of_key(&"n".to_string()), Some(0));
    // the field's own name is not its external key once aliased
    assert_eq!(schema.index_of_key(&"count".to_string()), None);
    assert_eq!(schema.index_of_name(&"missing".to_string()), None);
    // an excluded field is found by name but not by key
    assert_eq!(schema.index_of_name(&"scratch".to_string()), Some(5));
    assert_eq!(schema.index_of_key(&"scratch".to_string()), None);
}
