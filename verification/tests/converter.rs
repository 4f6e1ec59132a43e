use mongo_to_sqlite::converter::{
    bson_to_sql_value, classify, convert_document, convert_with_diagnostic,
    document_to_sql_values, escape_identifier, infer_sqlite_type, json_or_diagnostic, Diagnostic,
};
use mongo_to_sqlite::value::{SourceDocument, SqlValue, StorageClass, Value};

fn nested_document() -> bson::Document {
    let mut nested = bson::Document::new();
    nested.insert("a", 1);
    nested.insert("b", "two");
    nested
}

fn every_kind() -> Vec<(Value, &'static str)> {
    vec![
        (Value::Double(1.5f64.to_bits()), "REAL"),
        (Value::String("s".to_string()), "TEXT"),
        (Value::Document(nested_document()), "TEXT"),
        (Value::Array(vec![bson::Bson::Int32(1)]), "TEXT"),
        (Value::Binary { subtype: 0, bytes: vec![1, 2, 3] }, "BLOB"),
        (Value::ObjectId([0; 12]), "TEXT"),
        (Value::Boolean(false), "INTEGER"),
        (Value::DateTime(0), "TEXT"),
        (Value::Null, "NULL"),
        (Value::RegularExpression { pattern: "a".to_string(), options: "i".to_string() }, "TEXT"),
        (Value::JavaScriptCode("f()".to_string()), "TEXT"),
        (
            Value::JavaScriptCodeWithScope { code: "f()".to_string(), scope: nested_document() },
            "TEXT",
        ),
        (Value::Int32(1), "INTEGER"),
        (Value::Int64(1), "INTEGER"),
        (Value::Timestamp { time: 1, increment: 2 }, "INTEGER"),
        (Value::Decimal128([0; 16]), "TEXT"),
        (Value::Undefined, "NULL"),
        (Value::MaxKey, "TEXT"),
        (Value::MinKey, "TEXT"),
        (Value::DbPointer, "NULL"),
        (Value::Symbol("s".to_string()), "TEXT"),
    ]
}

#[test]
fn test_bson_string_to_sql() {
    let bson = Value::String("hello".to_string());
    match bson_to_sql_value(&bson) {
        SqlValue::Text(s) => assert_eq!(s, "hello"),
        _ => panic!("Expected Text value"),
    }
}

#[test]
fn test_bson_int_to_sql() {
    let bson = Value::Int32(42);
    match bson_to_sql_value(&bson) {
        SqlValue::Integer(i) => assert_eq!(i, 42),
        _ => panic!("Expected Integer value"),
    }
}

#[test]
fn test_bson_bool_to_sql() {
    let bson = Value::Boolean(true);
    match bson_to_sql_value(&bson) {
        SqlValue::Integer(i) => assert_eq!(i, 1),
        _ => panic!("Expected Integer value"),
    }
}

#[test]
fn test_bson_null_to_sql() {
    let bson = Value::Null;
    match bson_to_sql_value(&bson) {
        SqlValue::Null => (),
        _ => panic!("Expected Null value"),
    }
}

#[test]
fn test_bson_objectid_to_sql() {
    let oid = bson::oid::ObjectId::new();
    let bson = Value::ObjectId(oid.bytes());
    match bson_to_sql_value(&bson) {
        SqlValue::Text(s) => assert_eq!(s, oid.to_hex()),
        _ => panic!("Expected Text value"),
    }
}

#[test]
fn test_infer_types() {
    assert_eq!(infer_sqlite_type(&Value::String("test".into())), "TEXT");
    assert_eq!(infer_sqlite_type(&Value::Int32(42)), "INTEGER");
    assert_eq!(infer_sqlite_type(&Value::Double(3.14f64.to_bits())), "REAL");
    assert_eq!(infer_sqlite_type(&Value::Boolean(true)), "INTEGER");
    assert_eq!(infer_sqlite_type(&Value::Null), "NULL");
}

#[test]
fn test_escape_identifier() {
    assert_eq!(escape_identifier("users"), "\"users\"");
    assert_eq!(escape_identifier("user_name"), "\"user_name\"");
    assert_eq!(escape_identifier("user\"name"), "\"user\"\"name\"");
}

#[test]
fn test_document_to_sql_values() {
    let mut doc = SourceDocument::new();
    doc.insert("name".to_string(), Value::String("Alice".to_string()));
    doc.insert("age".to_string(), Value::Int32(30));
    doc.insert("active".to_string(), Value::Boolean(true));

    let field_names = vec!["name".to_string(), "age".to_string(), "active".to_string()];

    let values = document_to_sql_values(&doc, &field_names);
    assert_eq!(values.len(), 3);
    assert_eq!(
        values,
        vec![SqlValue::Text("Alice".to_string()), SqlValue::Integer(30), SqlValue::Integer(1)]
    );
}

#[test]
fn every_kind_of_value_has_one_of_the_five_classes() {
    for (value, expected) in every_kind() {
        let name = infer_sqlite_type(&value);
        assert_eq!(name, expected);
        assert!(matches!(name, "INTEGER" | "REAL" | "TEXT" | "BLOB" | "NULL"));
        assert_eq!(classify(&value).as_str(), expected);
    }
    assert_eq!(every_kind().len(), 21);
}

#[test]
fn class_names_are_the_five_words() {
    assert_eq!(StorageClass::Integer.as_str(), "INTEGER");
    assert_eq!(StorageClass::Real.as_str(), "REAL");
    assert_eq!(StorageClass::Text.as_str(), "TEXT");
    assert_eq!(StorageClass::Blob.as_str(), "BLOB");
    assert_eq!(StorageClass::Null.as_str(), "NULL");
}

#[test]
fn row_has_null_for_every_field_the_document_lacks() {
    let mut doc = SourceDocument::new();
    doc.insert("b".to_string(), Value::Int64(7));
    doc.insert("extra".to_string(), Value::Int64(9));
    let names = vec!["a".to_string(), "b".to_string(), "c".to_string()];
    let row = document_to_sql_values(&doc, &names);
    assert_eq!(row, vec![SqlValue::Null, SqlValue::Integer(7), SqlValue::Null]);
    let none: Vec<String> = Vec::new();
    assert_eq!(document_to_sql_values(&doc, &none), Vec::<SqlValue>::new());
}

#[test]
fn double_keeps_its_bits() {
    let bits = 3.14f64.to_bits();
    assert_eq!(bson_to_sql_value(&Value::Double(bits)), SqlValue::Real(bits));
    match bson_to_sql_value(&Value::Double(bits)) {
        SqlValue::Real(b) => assert_eq!(f64::from_bits(b), 3.14),
        _ => panic!("expected a real"),
    }
}

#[test]
fn scalars_convert_as_the_table_says() {
    assert_eq!(bson_to_sql_value(&Value::Boolean(false)), SqlValue::Integer(0));
    assert_eq!(bson_to_sql_value(&Value::Boolean(true)), SqlValue::Integer(1));
    assert_eq!(bson_to_sql_value(&Value::Int32(-5)), SqlValue::Integer(-5));
    assert_eq!(bson_to_sql_value(&Value::Int64(i64::MIN)), SqlValue::Integer(i64::MIN));
    assert_eq!(
        bson_to_sql_value(&Value::Timestamp { time: 1_700_000_000, increment: 9 }),
        SqlValue::Integer(1_700_000_000)
    );
    assert_eq!(
        bson_to_sql_value(&Value::Timestamp { time: u32::MAX, increment: 0 }),
        SqlValue::Integer(4_294_967_295)
    );
    assert_eq!(bson_to_sql_value(&Value::Undefined), SqlValue::Null);
    assert_eq!(bson_to_sql_value(&Value::DbPointer), SqlValue::Null);
    assert_eq!(bson_to_sql_value(&Value::MaxKey), SqlValue::Text("$maxKey".to_string()));
    assert_eq!(bson_to_sql_value(&Value::MinKey), SqlValue::Text("$minKey".to_string()));
    assert_eq!(
        bson_to_sql_value(&Value::Symbol("sym".to_string())),
        SqlValue::Text("sym".to_string())
    );
    assert_eq!(
        bson_to_sql_value(&Value::JavaScriptCode("f()".to_string())),
        SqlValue::Text("f()".to_string())
    );
}

#[test]
fn object_id_becomes_lowercase_hex() {
    let bytes = [0x00, 0x01, 0x0a, 0x0f, 0x10, 0x7f, 0x80, 0xab, 0xcd, 0xef, 0xfe, 0xff];
    assert_eq!(
        bson_to_sql_value(&Value::ObjectId(bytes)),
        SqlValue::Text("00010a0f107f80abcdeffeff".to_string())
    );
}

#[test]
fn date_time_becomes_rfc_3339_in_utc() {
    assert_eq!(
        bson_to_sql_value(&Value::DateTime(0)),
        SqlValue::Text("1970-01-01T00:00:00+00:00".to_string())
    );
    assert_eq!(
        bson_to_sql_value(&Value::DateTime(1_500)),
        SqlValue::Text("1970-01-01T00:00:01.500+00:00".to_string())
    );
    assert_eq!(
        bson_to_sql_value(&Value::DateTime(1_700_000_000_000)),
        SqlValue::Text("2023-11-14T22:13:20+00:00".to_string())
    );
    assert_eq!(
        bson_to_sql_value(&Value::DateTime(-1)),
        SqlValue::Text("1969-12-31T23:59:59.999+00:00".to_string())
    );
    match bson_to_sql_value(&Value::DateTime(i64::MAX)) {
        SqlValue::Text(_) => (),
        _ => panic!("expected text"),
    }
}

#[test]
fn decimal_text_parses_back_to_the_same_decimal() {
    for text in ["123.456", "0.000001234", "-9.999999999999999999999999999999999E+6144", "1E-6176", "0", "NaN", "-Infinity"] {
        let decimal: bson::Decimal128 = text.parse().unwrap();
        match bson_to_sql_value(&Value::Decimal128(decimal.bytes())) {
            SqlValue::Text(s) => {
                let back: bson::Decimal128 = s.parse().unwrap();
                assert_eq!(back.bytes(), decimal.bytes());
            }
            _ => panic!("expected text"),
        }
    }
    let decimal: bson::Decimal128 = "123.456".parse().unwrap();
    assert_eq!(
        bson_to_sql_value(&Value::Decimal128(decimal.bytes())),
        SqlValue::Text("123.456".to_string())
    );
}

#[test]
fn embedded_document_becomes_json_text() {
    assert_eq!(
        bson_to_sql_value(&Value::Document(nested_document())),
        SqlValue::Text("{\"a\":1,\"b\":\"two\"}".to_string())
    );
    assert_eq!(
        bson_to_sql_value(&Value::Document(bson::Document::new())),
        SqlValue::Text("{}".to_string())
    );
}

#[test]
fn array_becomes_json_text() {
    let elements = vec![
        bson::Bson::Int32(1),
        bson::Bson::String("x".to_string()),
        bson::Bson::Null,
        bson::Bson::Document(nested_document()),
    ];
    assert_eq!(
        bson_to_sql_value(&Value::Array(elements)),
        SqlValue::Text("[1,\"x\",null,{\"a\":1,\"b\":\"two\"}]".to_string())
    );
    assert_eq!(bson_to_sql_value(&Value::Array(Vec::new())), SqlValue::Text("[]".to_string()));
}

#[test]
fn binary_becomes_json_text_and_no_blob() {
    assert_eq!(
        bson_to_sql_value(&Value::Binary { subtype: 0, bytes: vec![1, 2, 255] }),
        SqlValue::Text("[1,2,255]".to_string())
    );
    assert_eq!(
        bson_to_sql_value(&Value::Binary { subtype: 0x80, bytes: vec![1, 2, 3] }),
        SqlValue::Text("{\"$binary\":{\"base64\":\"AQID\",\"subType\":\"80\"}}".to_string())
    );
}

#[test]
fn regular_expression_becomes_pattern_and_options() {
    let value =
        Value::RegularExpression { pattern: "^a\"b$".to_string(), options: "im".to_string() };
    assert_eq!(
        bson_to_sql_value(&value),
        SqlValue::Text("{\"pattern\":\"^a\\\"b$\",\"options\":\"im\"}".to_string())
    );
}

#[test]
fn code_with_scope_becomes_code_and_scope() {
    let value =
        Value::JavaScriptCodeWithScope { code: "f(a)".to_string(), scope: nested_document() };
    assert_eq!(
        bson_to_sql_value(&value),
        SqlValue::Text("{\"code\":\"f(a)\",\"scope\":{\"a\":1,\"b\":\"two\"}}".to_string())
    );
}

#[test]
fn failed_serialization_becomes_null() {
    let error = serde_json::from_str::<serde_json::Value>("{").unwrap_err();
    assert_eq!(
        json_or_diagnostic(Err(error), Diagnostic::ArrayNotSerialized),
        (SqlValue::Null, Some(Diagnostic::ArrayNotSerialized))
    );
    assert_eq!(
        json_or_diagnostic(Ok("[]".to_string()), Diagnostic::ArrayNotSerialized),
        (SqlValue::Text("[]".to_string()), None)
    );
}

#[test]
fn deprecated_pointer_is_null_with_a_diagnostic() {
    assert_eq!(
        convert_with_diagnostic(&Value::DbPointer),
        (SqlValue::Null, Some(Diagnostic::DeprecatedPointer))
    );
    assert_eq!(convert_with_diagnostic(&Value::Null), (SqlValue::Null, None));
    assert_eq!(convert_with_diagnostic(&Value::Undefined), (SqlValue::Null, None));
    for (value, _) in every_kind() {
        let pointer = matches!(value, Value::DbPointer);
        assert_eq!(convert_with_diagnostic(&value).1.is_some(), pointer);
    }
}

#[test]
fn row_comes_with_the_diagnostics_of_its_values() {
    let mut doc = SourceDocument::new();
    doc.insert("p".to_string(), Value::DbPointer);
    doc.insert("n".to_string(), Value::Int32(1));
    doc.insert("q".to_string(), Value::DbPointer);
    let names = vec!["q".to_string(), "n".to_string(), "missing".to_string(), "p".to_string()];
    let (row, diagnostics) = convert_document(&doc, &names);
    assert_eq!(row, vec![SqlValue::Null, SqlValue::Integer(1), SqlValue::Null, SqlValue::Null]);
    assert_eq!(diagnostics, vec![Diagnostic::DeprecatedPointer, Diagnostic::DeprecatedPointer]);
    assert_eq!(convert_document(&doc, &names[1..3]).1, vec![]);
}

#[test]
fn identifier_with_a_quote_is_doubled() {
    assert_eq!(escape_identifier("a\"b"), "\"a\"\"b\"");
    assert_eq!(escape_identifier(""), "\"\"");
    assert_eq!(escape_identifier("\""), "\"\"\"\"");
    assert_eq!(escape_identifier("naïve ü"), "\"naïve ü\"");
    assert_eq!(escape_identifier("x; DROP TABLE y"), "\"x; DROP TABLE y\"");
}

#[test]
fn document_keeps_one_value_for_each_name() {
    let mut doc = SourceDocument::new();
    assert!(doc.is_empty());
    assert!(doc.insert("a".to_string(), Value::Int32(1)).is_none());
    assert!(doc.insert("b".to_string(), Value::Int32(2)).is_none());
    match doc.insert("a".to_string(), Value::Int32(3)) {
        Some(Value::Int32(1)) => (),
        _ => panic!("expected the former value"),
    }
    assert_eq!(doc.len(), 2);
    assert_eq!(doc.key_at(0), "a");
    assert_eq!(doc.key_at(1), "b");
    assert!(matches!(doc.value_at(0), Value::Int32(3)));
    assert!(matches!(doc.get("b"), Some(Value::Int32(2))));
    assert!(doc.get("c").is_none());
    assert!(doc.contains_key("a"));
    assert!(!doc.contains_key("A"));
}

#[test]
fn duplicate_holds_the_same_value() {
    for value in [
        SqlValue::Null,
        SqlValue::Integer(-3),
        SqlValue::Real(2.5f64.to_bits()),
        SqlValue::Text("t".to_string()),
        SqlValue::Blob(vec![0, 1, 2]),
    ] {
        assert_eq!(value.duplicate(), value);
    }
    let row = vec![SqlValue::Integer(1), SqlValue::Blob(vec![9])];
    assert_eq!(mongo_to_sqlite::value::duplicate_row(&row), row);
}
