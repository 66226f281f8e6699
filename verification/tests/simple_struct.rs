use perstruct::record::{LoadResult, Record};
use perstruct::schema::{FieldDescriptor, Schema};
use perstruct::value::{FieldKind, Value};

/// The record of the original example: `a: i32` stored under the key `"b"`,
/// `foo` a structured value defaulting to an empty object, and `bar: i32`
/// defaulting to 2.
fn three_field_schema() -> Schema {
    Schema::build(vec![
        FieldDescriptor::new("a".to_string(), FieldKind::Int).with_key("b".to_string()),
        FieldDescriptor::new("foo".to_string(), FieldKind::Object)
            .with_default(Value::Object("{}".to_string())),
        FieldDescriptor::new("bar".to_string(), FieldKind::Int).with_default(Value::Int(2)),
    ])
    .unwrap()
}

/// The same record with a trailing list field.
fn four_field_schema() -> Schema {
    Schema::build(vec![
        FieldDescriptor::new("a".to_string(), FieldKind::Int).with_key("b".to_string()),
        FieldDescriptor::new("foo".to_string(), FieldKind::Object)
            .with_default(Value::Object("{}".to_string())),
        FieldDescriptor::new("bar".to_string(), FieldKind::Int).with_default(Value::Int(2)),
        FieldDescriptor::new("list".to_string(), FieldKind::List),
    ])
    .unwrap()
}

#[test]
fn some_basic_tests() {
    let mut settings = Record::new(three_field_schema());
    assert_eq!(settings.get(0), &Value::Int(0));
    assert_eq!(settings.get(2), &Value::Int(2));
    assert_eq!(settings.get(1), &Value::Object("{}".to_string()));

    settings.set(0, Value::Int(1)).unwrap();
    settings.set(2, Value::Int(7)).unwrap();
    assert_eq!(settings.get(0), &Value::Int(1));
    assert_eq!(settings.dirty_fields(), vec!["b".to_string(), "bar".to_string()]);

    assert_eq!(
        settings.schema().keys(),
        vec!["b".to_string(), "foo".to_string(), "bar".to_string()]
    );

    let entries = vec![
        ("b".to_string(), "3".to_string()),
        ("foo".to_string(), "null".to_string()),
        ("bar".to_string(), "\"a\"".to_string()),
    ];
    let loaded = Record::from_map(three_field_schema(), &entries);
    assert_eq!(loaded.value.get(0), &Value::Int(3));
    assert_eq!(loaded.value.get(2), &Value::Int(2));
    assert_eq!(loaded.value.get(1), &Value::Object("{}".to_string()));
    let mut errors = loaded.deserialization_errors;
    errors.sort();
    assert_eq!(
        errors,
        vec![
            (
                "bar".to_string(),
                "invalid type: string \"a\", expected i32 at line 1 column 3".to_string()
            ),
            (
                "foo".to_string(),
                "invalid type: null, expected a map at line 1 column 4".to_string()
            ),
        ]
    );
    assert_eq!(loaded.unknown_fields, Vec::<String>::new());
}

#[test]
fn simple_struct_some_basic_tests() {
    let mut settings = Record::new(four_field_schema());
    assert_eq!(settings.get(0), &Value::Int(0));
    assert_eq!(settings.get(2), &Value::Int(2));
    assert_eq!(settings.get(1), &Value::Object("{}".to_string()));

    settings.set(0, Value::Int(1)).unwrap();
    settings.set(2, Value::Int(7)).unwrap();
    settings.set(2, Value::Int(8)).unwrap();
    assert_eq!(settings.get(0), &Value::Int(1));
    assert_eq!(settings.get(2), &Value::Int(8));
    assert_eq!(settings.dirty_fields(), vec!["b".to_string(), "bar".to_string()]);

    settings
        .update(3, |v| match v {
            Value::List(mut l) => {
                l.push("appended".to_string());
                Value::List(l)
            }
            other => other,
        })
        .unwrap();
    assert_eq!(settings.get(3), &Value::List(vec!["appended".to_string()]));
    assert_eq!(
        settings.dirty_fields(),
        vec!["b".to_string(), "bar".to_string(), "list".to_string()]
    );

    assert_eq!(
        settings.schema().keys(),
        vec![
            "b".to_string(),
            "foo".to_string(),
            "bar".to_string(),
            "list".to_string()
        ]
    );

    let entries = vec![
        ("b".to_string(), "3".to_string()),
        ("foo".to_string(), "null".to_string()),
        ("bar".to_string(), "\"a\"".to_string()),
        ("whatever".to_string(), "null".to_string()),
    ];
    let LoadResult {
        value: settings,
        mut deserialization_errors,
        unknown_fields,
    } = Record::from_map(four_field_schema(), &entries);
    assert_eq!(settings.get(0), &Value::Int(3));
    assert_eq!(settings.get(2), &Value::Int(2));
    assert_eq!(settings.get(1), &Value::Object("{}".to_string()));
    deserialization_errors.sort();
    assert_eq!(
        deserialization_errors,
        vec![
            (
                "bar".to_string(),
                "invalid type: string \"a\", expected i32 at line 1 column 3".to_string()
            ),
            (
                "foo".to_string(),
                "invalid type: null, expected a map at line 1 column 4".to_string()
            ),
        ]
    );
    assert_eq!(unknown_fields, vec!["whatever".to_string()]);
}
