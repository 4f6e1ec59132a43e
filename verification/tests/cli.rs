use mongo_to_sqlite::cli::{require_collections, Args, Selection};
use mongo_to_sqlite::connection::ConnectionMode;
use mongo_to_sqlite::error::MigrationError;
use mongo_to_sqlite::text::{compare_names, join_strings, same_name, NameOrder};

fn args(table: Option<&str>, all_tables: bool, batch_size: usize, sample_size: usize) -> Args {
    Args {
        database: "test".to_string(),
        mongodb_uri: "mongodb://localhost:27017".to_string(),
        table: table.map(|t| t.to_string()),
        all_tables,
        schema_only: false,
        data_only: false,
        truncate: false,
        drop_tables: false,
        output: Some("output.db".to_string()),
        batch_size,
        sample_size,
    }
}

#[test]
fn test_validate_missing_table_flags() {
    let args = Args {
        database: "test".to_string(),
        mongodb_uri: "mongodb://localhost:27017".to_string(),
        table: None,
        all_tables: false,
        schema_only: false,
        data_only: false,
        truncate: false,
        drop_tables: false,
        output: Some("output.db".to_string()),
        batch_size: 1000,
        sample_size: 100,
    };

    assert!(args.validate().is_err());
}

#[test]
fn test_validate_zero_batch_size() {
    let args = Args {
        database: "test".to_string(),
        mongodb_uri: "mongodb://localhost:27017".to_string(),
        table: Some("users".to_string()),
        all_tables: false,
        schema_only: false,
        data_only: false,
        truncate: false,
        drop_tables: false,
        output: Some("output.db".to_string()),
        batch_size: 0,
        sample_size: 100,
    };

    assert!(args.validate().is_err());
}

#[test]
fn test_validate_valid_args() {
    let args = Args {
        database: "test".to_string(),
        mongodb_uri: "mongodb://localhost:27017".to_string(),
        table: Some("users".to_string()),
        all_tables: false,
        schema_only: false,
        data_only: false,
        truncate: false,
        drop_tables: false,
        output: Some("output.db".to_string()),
        batch_size: 1000,
        sample_size: 100,
    };

    assert!(args.validate().is_ok());
}

#[test]
fn validate_names_the_first_fault() {
    assert_eq!(
        args(None, false, 0, 0).validate(),
        Err(MigrationError::ConfigError(
            "Either --table <TABLE> or --all-tables must be specified".to_string()
        ))
    );
    assert_eq!(
        args(None, true, 0, 0).validate(),
        Err(MigrationError::ConfigError("--batch-size must be greater than 0".to_string()))
    );
    assert_eq!(
        args(Some("users"), false, 1, 0).validate(),
        Err(MigrationError::ConfigError("--sample-size must be greater than 0".to_string()))
    );
    assert_eq!(args(None, true, 1, 1).validate(), Ok(()));
}

#[test]
fn each_error_has_its_text() {
    let m = || "boom".to_string();
    assert_eq!(
        MigrationError::MongoConnectionError(m()).message(),
        "MongoDB connection error: boom"
    );
    assert_eq!(MigrationError::LibSqlError(m()).message(), "LibSQL error: boom");
    assert_eq!(MigrationError::schema_inference("boom").message(), "Schema inference error: boom");
    assert_eq!(MigrationError::type_conversion("boom").message(), "Type conversion error: boom");
    assert_eq!(
        MigrationError::CollectionNotFound("users".to_string(), "shop".to_string()).message(),
        "Collection 'users' not found in database 'shop'"
    );
    assert_eq!(
        MigrationError::DatabaseNotFound("shop".to_string()).message(),
        "Database 'shop' not found"
    );
    assert_eq!(MigrationError::config("boom").message(), "Configuration error: boom");
    assert_eq!(MigrationError::IoError(m()).message(), "I/O error: boom");
    assert_eq!(MigrationError::BsonError(m()).message(), "BSON error: boom");
    assert_eq!(MigrationError::BsonDocumentError(m()).message(), "BSON document error: boom");
    assert_eq!(MigrationError::Interrupted.message(), "Migration was interrupted");
    assert_eq!(MigrationError::other("boom").message(), "boom");
}

#[test]
fn error_makers_give_their_variant() {
    assert_eq!(
        MigrationError::schema_inference("a"),
        MigrationError::SchemaInferenceError("a".to_string())
    );
    assert_eq!(
        MigrationError::type_conversion("b"),
        MigrationError::TypeConversionError("b".to_string())
    );
    assert_eq!(MigrationError::config("c"), MigrationError::ConfigError("c".to_string()));
    assert_eq!(MigrationError::other("d"), MigrationError::Other("d".to_string()));
}

#[test]
fn remote_sink_needs_address_and_token() {
    assert_eq!(
        ConnectionMode::select(Some("libsql://db"), Some("token"), Some("x.db")),
        ConnectionMode::Remote { url: "libsql://db".to_string() }
    );
    assert_eq!(
        ConnectionMode::select(Some("libsql://db"), None, Some("x.db")),
        ConnectionMode::Local("x.db".to_string())
    );
    assert_eq!(
        ConnectionMode::select(None, Some("token"), None),
        ConnectionMode::Local("output.db".to_string())
    );
    assert_eq!(ConnectionMode::select(None, None, None), ConnectionMode::Local("output.db".to_string()));
}

#[test]
fn connection_mode_describes_itself() {
    let local = ConnectionMode::Local("data/out.db".to_string());
    let remote = ConnectionMode::Remote { url: "libsql://db".to_string() };
    assert_eq!(local.connection_info(), "Local file: data/out.db");
    assert_eq!(remote.connection_info(), "Turso cloud: libsql://db");
    assert!(local.is_local());
    assert!(!remote.is_local());
    assert_eq!(local.output_path(), Some("data/out.db".to_string()));
    assert_eq!(remote.output_path(), None);
}

#[test]
fn names_are_ordered_by_code_point() {
    assert_eq!(compare_names("a", "b"), NameOrder::Less);
    assert_eq!(compare_names("b", "a"), NameOrder::Greater);
    assert_eq!(compare_names("a", "a"), NameOrder::Equal);
    assert_eq!(compare_names("", ""), NameOrder::Equal);
    assert_eq!(compare_names("", "a"), NameOrder::Less);
    assert_eq!(compare_names("ab", "a"), NameOrder::Greater);
    assert_eq!(compare_names("Zeta", "alpha"), NameOrder::Less);
    assert_eq!(compare_names("z", "é"), NameOrder::Less);
    assert_eq!(compare_names("é", "€"), NameOrder::Less);
    assert!(same_name("_id", "_id"));
    assert!(!same_name("_id", "_ID"));
    for (a, b) in [("a", "b"), ("Zeta", "alpha"), ("z", "é"), ("é", "€"), ("ab", "a")] {
        let by_std = a.cmp(b);
        let ours = compare_names(a, b);
        assert_eq!(by_std == std::cmp::Ordering::Less, ours == NameOrder::Less);
    }
}

#[test]
fn join_puts_the_separator_between() {
    let parts = vec!["a".to_string(), "b".to_string(), "c".to_string()];
    assert_eq!(join_strings(&parts, ", "), "a, b, c");
    assert_eq!(join_strings(&vec!["a".to_string()], ", "), "a");
    assert_eq!(join_strings(&Vec::new(), ", "), "");
}

#[test]
fn arguments_choose_all_collections_or_one() {
    assert_eq!(args(Some("users"), false, 1, 1).selection(), Ok(Selection::Table("users".to_string())));
    assert_eq!(args(None, true, 1, 1).selection(), Ok(Selection::AllTables));
    assert_eq!(args(Some("users"), true, 1, 1).selection(), Ok(Selection::AllTables));
    assert_eq!(
        args(None, false, 1, 1).selection(),
        Err(MigrationError::ConfigError(
            "Either --all-tables or --table must be specified".to_string()
        ))
    );
}

#[test]
fn run_over_no_collection_is_an_error() {
    assert_eq!(
        require_collections(vec![], "shop"),
        Err(MigrationError::Other("No collections found in database 'shop'".to_string()))
    );
    assert_eq!(require_collections(vec!["a".to_string()], "shop"), Ok(vec!["a".to_string()]));
}
