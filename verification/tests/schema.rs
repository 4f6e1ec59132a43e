use mongo_to_sqlite::converter::document_to_sql_values;
use mongo_to_sqlite::inference::{FieldInfo, FieldTable, SchemaInferrer};
use mongo_to_sqlite::schema::{CollectionSchema, Field};
use mongo_to_sqlite::value::{SourceDocument, SqlValue, StorageClass, Value};

fn text(s: &str) -> Value {
    Value::String(s.to_string())
}

fn document(fields: Vec<(&str, Value)>) -> SourceDocument {
    let mut doc = SourceDocument::new();
    for (name, value) in fields {
        doc.insert(name.to_string(), value);
    }
    doc
}

fn column(name: &str, sql_type: &str) -> Field {
    Field {
        name: name.to_string(),
        sql_type: sql_type.to_string(),
        nullable: true,
        is_primary_key: false,
    }
}

fn id_column() -> Field {
    Field {
        name: "_id".to_string(),
        sql_type: "TEXT".to_string(),
        nullable: false,
        is_primary_key: true,
    }
}

fn resolved(counts: [usize; 5]) -> &'static str {
    let classes = [
        StorageClass::Integer,
        StorageClass::Real,
        StorageClass::Text,
        StorageClass::Blob,
        StorageClass::Null,
    ];
    let mut info = FieldInfo::new();
    for (class, count) in classes.iter().zip(counts.iter()) {
        for _ in 0..*count {
            info.record_class(*class);
        }
    }
    info.finalize();
    info.most_common_type()
}

#[test]
fn test_infer_schema_simple() {
    let docs = vec![
        document(vec![("_id", text("1")), ("name", text("Alice")), ("age", Value::Int32(30))]),
        document(vec![("_id", text("2")), ("name", text("Bob")), ("age", Value::Int32(25))]),
    ];

    let schema = SchemaInferrer::infer_schema("users", &docs);

    assert_eq!(schema.collection_name, "users");
    assert_eq!(schema.fields.len(), 3); // _id, name, age

    // Check that _id is primary key
    let id_field = schema.fields.iter().find(|f| f.name == "_id").unwrap();
    assert!(id_field.is_primary_key);
}

#[test]
fn test_infer_schema_nullable_fields() {
    let docs = vec![
        document(vec![
            ("_id", text("1")),
            ("name", text("Alice")),
            ("email", text("alice@example.com")),
        ]),
        document(vec![("_id", text("2")), ("name", text("Bob"))]),
    ];

    let schema = SchemaInferrer::infer_schema("users", &docs);

    let email_field = schema.fields.iter().find(|f| f.name == "email").unwrap();
    assert!(email_field.nullable);

    // Every column but the identifier is nullable: a document outside the
    // sample may lack any field.
    let name_field = schema.fields.iter().find(|f| f.name == "name").unwrap();
    assert!(name_field.nullable);
}

#[test]
fn test_create_table_sql() {
    let schema = CollectionSchema {
        collection_name: "users".to_string(),
        fields: vec![
            Field {
                name: "_id".to_string(),
                sql_type: "TEXT".to_string(),
                nullable: false,
                is_primary_key: true,
            },
            Field {
                name: "name".to_string(),
                sql_type: "TEXT".to_string(),
                nullable: false,
                is_primary_key: false,
            },
            Field {
                name: "age".to_string(),
                sql_type: "INTEGER".to_string(),
                nullable: true,
                is_primary_key: false,
            },
        ],
    };

    let sql = schema.to_create_table_sql();
    assert!(sql.contains("CREATE TABLE"));
    assert!(sql.contains("users"));
    assert!(sql.contains("PRIMARY KEY"));
    assert_eq!(
        sql,
        "CREATE TABLE IF NOT EXISTS \"users\" (\n  \"_id\" TEXT PRIMARY KEY,\n  \"name\" TEXT NOT NULL,\n  \"age\" INTEGER\n)"
    );
}

#[test]
fn test_insert_sql() {
    let schema = CollectionSchema {
        collection_name: "users".to_string(),
        fields: vec![
            Field {
                name: "_id".to_string(),
                sql_type: "TEXT".to_string(),
                nullable: false,
                is_primary_key: true,
            },
            Field {
                name: "name".to_string(),
                sql_type: "TEXT".to_string(),
                nullable: false,
                is_primary_key: false,
            },
        ],
    };

    let sql = schema.to_insert_sql();
    assert!(sql.contains("INSERT INTO"));
    assert!(sql.contains("VALUES"));
    assert!(sql.contains("?"));
    assert_eq!(sql, "INSERT INTO \"users\" (\"_id\", \"name\") VALUES (?, ?)");
}

#[test]
fn test_empty_schema() {
    let docs: Vec<SourceDocument> = vec![];
    let schema = SchemaInferrer::infer_schema("empty", &docs);

    assert_eq!(schema.fields.len(), 1); // Just _id
    assert_eq!(schema.fields[0].name, "_id");
    assert_eq!(schema.fields, vec![id_column()]);
    assert_eq!(SchemaInferrer::create_empty_schema("empty"), schema);
}

#[test]
fn statements_quote_every_name() {
    let schema = CollectionSchema {
        collection_name: "a\"b".to_string(),
        fields: vec![id_column(), column("we\"ird", "REAL")],
    };
    assert_eq!(
        schema.to_create_table_sql(),
        "CREATE TABLE IF NOT EXISTS \"a\"\"b\" (\n  \"_id\" TEXT PRIMARY KEY,\n  \"we\"\"ird\" REAL\n)"
    );
    assert_eq!(
        schema.to_insert_sql(),
        "INSERT INTO \"a\"\"b\" (\"_id\", \"we\"\"ird\") VALUES (?, ?)"
    );
    assert_eq!(schema.field_names(), vec!["_id".to_string(), "we\"ird".to_string()]);
}

#[test]
fn statements_of_a_schema_without_columns() {
    let schema = CollectionSchema { collection_name: "t".to_string(), fields: vec![] };
    assert_eq!(schema.to_create_table_sql(), "CREATE TABLE IF NOT EXISTS \"t\" (\n  \n)");
    assert_eq!(schema.to_insert_sql(), "INSERT INTO \"t\" () VALUES ()");
    assert_eq!(schema.field_names(), Vec::<String>::new());
}

#[test]
fn column_definition_has_its_suffix() {
    assert_eq!(id_column().definition(), "\"_id\" TEXT PRIMARY KEY");
    assert_eq!(column("age", "INTEGER").definition(), "\"age\" INTEGER");
    let strict = Field {
        name: "n".to_string(),
        sql_type: "TEXT".to_string(),
        nullable: false,
        is_primary_key: false,
    };
    assert_eq!(strict.definition(), "\"n\" TEXT NOT NULL");
    let nullable_key = Field {
        name: "k".to_string(),
        sql_type: "INTEGER".to_string(),
        nullable: true,
        is_primary_key: true,
    };
    assert_eq!(nullable_key.definition(), "\"k\" INTEGER PRIMARY KEY");
}

#[test]
fn tie_goes_to_the_preferred_class() {
    assert_eq!(resolved([5, 5, 0, 0, 0]), "INTEGER");
    assert_eq!(resolved([0, 2, 2, 2, 2]), "REAL");
    assert_eq!(resolved([0, 0, 1, 1, 0]), "TEXT");
    assert_eq!(resolved([0, 0, 0, 3, 3]), "BLOB");
    assert_eq!(resolved([1, 1, 1, 1, 1]), "INTEGER");
}

#[test]
fn most_seen_class_wins() {
    assert_eq!(resolved([1, 2, 0, 0, 0]), "REAL");
    assert_eq!(resolved([3, 0, 4, 0, 0]), "TEXT");
    assert_eq!(resolved([1, 1, 1, 2, 0]), "BLOB");
    assert_eq!(resolved([0, 0, 0, 0, 4]), "NULL");
}

#[test]
fn null_gives_way_to_any_other_class() {
    assert_eq!(resolved([0, 0, 1, 0, 3]), "TEXT");
    assert_eq!(resolved([0, 0, 0, 1, 9]), "BLOB");
    assert_eq!(resolved([0, 1, 1, 0, 9]), "REAL");
}

#[test]
fn nothing_seen_is_text() {
    assert_eq!(resolved([0, 0, 0, 0, 0]), "TEXT");
    assert_eq!(FieldInfo::new().most_common_type(), "TEXT");
}

#[test]
fn field_info_counts_what_it_records() {
    let mut info = FieldInfo::new();
    info.record_value(&Value::Int32(1));
    info.record_value(&Value::Boolean(true));
    info.record_value(&Value::Null);
    info.record_value(&Value::Double(1.0f64.to_bits()));
    info.record_value(&Value::Binary { subtype: 0, bytes: vec![] });
    info.record_value(&text("t"));
    let counts = info.type_counts();
    assert_eq!(
        (counts.integer, counts.real, counts.text, counts.blob, counts.null),
        (2, 1, 1, 1, 1)
    );
    assert_eq!(info.presence_count(), 6);
}

#[test]
fn integer_and_real_in_five_documents_each_is_integer() {
    let mut docs = Vec::new();
    for i in 0..5 {
        docs.push(document(vec![("_id", text("a")), ("v", Value::Int64(i))]));
        docs.push(document(vec![("_id", text("b")), ("v", Value::Double(1.5f64.to_bits()))]));
    }
    let schema = SchemaInferrer::infer_schema("c", &docs);
    assert_eq!(schema.fields, vec![id_column(), column("v", "INTEGER")]);
}

#[test]
fn null_in_three_documents_and_text_in_one_is_text() {
    let docs = vec![
        document(vec![("v", Value::Null)]),
        document(vec![("v", Value::Null)]),
        document(vec![("v", text("x"))]),
        document(vec![("v", Value::Undefined)]),
    ];
    let schema = SchemaInferrer::infer_schema("c", &docs);
    assert_eq!(schema.fields, vec![id_column(), column("v", "TEXT")]);
}

#[test]
fn identifier_column_is_first_whatever_the_sample_holds() {
    let without = vec![document(vec![("b", Value::Int32(1)), ("a", Value::Int32(1))])];
    assert_eq!(
        SchemaInferrer::infer_schema("c", &without).fields,
        vec![id_column(), column("a", "INTEGER"), column("b", "INTEGER")]
    );
    let numeric = vec![document(vec![("z", text("x")), ("_id", Value::Int64(7))])];
    assert_eq!(
        SchemaInferrer::infer_schema("c", &numeric).fields,
        vec![id_column(), column("z", "TEXT")]
    );
    let early = vec![document(vec![("A", Value::Null), ("_id", Value::Null), ("$x", Value::Null)])];
    assert_eq!(
        SchemaInferrer::infer_schema("c", &early).fields,
        vec![id_column(), column("$x", "NULL"), column("A", "NULL")]
    );
}

#[test]
fn columns_do_not_depend_on_the_order_of_the_sample() {
    let make = |order: &[usize]| {
        let all = [
            vec![("_id", text("1")), ("zeta", Value::Int32(1)), ("Alpha", text("x"))],
            vec![("beta", Value::Double(0)), ("_id", text("2"))],
            vec![("zeta", Value::Null), ("alpha", Value::Boolean(true))],
        ];
        let docs: Vec<SourceDocument> =
            order.iter().map(|i| document(all[*i].iter().map(|(n, v)| (*n, copy(v))).collect())).collect();
        SchemaInferrer::infer_schema("c", &docs)
    };
    let expected = vec![
        id_column(),
        column("Alpha", "TEXT"),
        column("alpha", "INTEGER"),
        column("beta", "REAL"),
        column("zeta", "INTEGER"),
    ];
    assert_eq!(make(&[0, 1, 2]).fields, expected);
    assert_eq!(make(&[2, 1, 0]).fields, expected);
    assert_eq!(make(&[1, 2, 0]).fields, expected);
}

fn copy(value: &Value) -> Value {
    match value {
        Value::String(s) => Value::String(s.clone()),
        Value::Int32(i) => Value::Int32(*i),
        Value::Double(b) => Value::Double(*b),
        Value::Boolean(b) => Value::Boolean(*b),
        _ => Value::Null,
    }
}

#[test]
fn two_documents_give_three_columns_and_a_row_in_their_order() {
    let docs = vec![
        document(vec![("_id", text("1")), ("name", text("Alice")), ("age", Value::Int32(30))]),
        document(vec![("_id", text("2")), ("name", text("Bob"))]),
    ];
    let schema = SchemaInferrer::infer_schema("people", &docs);
    assert_eq!(
        schema,
        CollectionSchema {
            collection_name: "people".to_string(),
            fields: vec![id_column(), column("age", "INTEGER"), column("name", "TEXT")],
        }
    );
    let row = document_to_sql_values(&docs[1], &schema.field_names());
    assert_eq!(
        row,
        vec![SqlValue::Text("2".to_string()), SqlValue::Null, SqlValue::Text("Bob".to_string())]
    );
    let first = document_to_sql_values(&docs[0], &schema.field_names());
    assert_eq!(
        first,
        vec![
            SqlValue::Text("1".to_string()),
            SqlValue::Integer(30),
            SqlValue::Text("Alice".to_string())
        ]
    );
}

#[test]
fn every_row_is_as_long_as_the_schema() {
    let docs = vec![
        document(vec![("_id", text("1")), ("a", Value::Int32(1))]),
        document(vec![("b", Value::Int32(2))]),
        document(vec![]),
    ];
    let schema = SchemaInferrer::infer_schema("c", &docs);
    let names = schema.field_names();
    for doc in &docs {
        let row = document_to_sql_values(doc, &names);
        assert_eq!(row.len(), schema.fields.len());
        for (value, name) in row.iter().zip(names.iter()) {
            if !doc.contains_key(name) {
                assert_eq!(*value, SqlValue::Null);
            }
        }
    }
    let unsampled = document(vec![("_id", text("9")), ("late", Value::Int32(1))]);
    assert_eq!(
        document_to_sql_values(&unsampled, &names),
        vec![SqlValue::Text("9".to_string()), SqlValue::Null, SqlValue::Null]
    );
}

#[test]
fn table_keeps_its_names_in_order() {
    let mut table = FieldTable::new();
    table.record("m", StorageClass::Text);
    table.record("a", StorageClass::Integer);
    table.record("z", StorageClass::Null);
    table.record("m", StorageClass::Text);
    table.record("m", StorageClass::Real);
    table.finalize();
    assert_eq!(table.len(), 3);
    assert_eq!(table.name_at(0), "a");
    assert_eq!(table.name_at(1), "m");
    assert_eq!(table.name_at(2), "z");
    assert_eq!(table.info_at(1).presence_count(), 3);
    assert_eq!(table.info_at(1).most_common_type(), "TEXT");
    assert_eq!(table.info_at(0).most_common_type(), "INTEGER");
    assert_eq!(table.info_at(2).most_common_type(), "NULL");
}

#[test]
fn analysis_counts_each_field_once_for_each_document() {
    let docs = vec![
        document(vec![("a", Value::Int32(1)), ("b", text("x"))]),
        document(vec![("a", text("y"))]),
        document(vec![("a", Value::Int64(2))]),
    ];
    let table = SchemaInferrer::analyze_documents(&docs);
    assert_eq!(table.len(), 2);
    let a = table.info_at(0);
    assert_eq!(a.type_counts().integer, 2);
    assert_eq!(a.type_counts().text, 1);
    assert_eq!(a.presence_count(), 3);
    assert_eq!(a.most_common_type(), "INTEGER");
    assert_eq!(table.info_at(1).presence_count(), 1);
}
