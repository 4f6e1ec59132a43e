//! The errors of a migration.

use vstd::prelude::*;
use vstd::string::StringExecFns;

verus! {

/// What can go wrong in a migration. An error that came from the source,
/// from the sink or from the system is held by its message.
#[derive(Clone, Debug, PartialEq, Eq)]
pub enum MigrationError {
    /// The source could not be reached or failed.
    MongoConnectionError(String),
    /// The sink could not be reached or failed.
    LibSqlError(String),
    /// A schema could not be inferred.
    SchemaInferenceError(String),
    /// A value could not be converted.
    TypeConversionError(String),
    /// The collection, then the database that lacks it.
    CollectionNotFound(String, String),
    /// The database does not exist.
    DatabaseNotFound(String),
    /// The configuration is not usable.
    ConfigError(String),
    /// Reading or writing failed.
    IoError(String),
    /// A document could not be serialized.
    BsonError(String),
    /// A value of a document could not be read.
    BsonDocumentError(String),
    /// The migration was interrupted.
    Interrupted,
    /// Anything else.
    Other(String),
}

/// What a `MigrationError` holds.
pub enum MigrationErrorView {
    MongoConnectionError(Seq<char>),
    LibSqlError(Seq<char>),
    SchemaInferenceError(Seq<char>),
    TypeConversionError(Seq<char>),
    CollectionNotFound(Seq<char>, Seq<char>),
    DatabaseNotFound(Seq<char>),
    ConfigError(Seq<char>),
    IoError(Seq<char>),
    BsonError(Seq<char>),
    BsonDocumentError(Seq<char>),
    Interrupted,
    Other(Seq<char>),
}

impl View for MigrationError {
    type V = MigrationErrorView;

    open spec fn view(&self) -> MigrationErrorView {
        match self {
            MigrationError::MongoConnectionError(m) => MigrationErrorView::MongoConnectionError(
                m@,
            ),
            MigrationError::LibSqlError(m) => MigrationErrorView::LibSqlError(m@),
            MigrationError::SchemaInferenceError(m) => MigrationErrorView::SchemaInferenceError(
                m@,
            ),
            MigrationError::TypeConversionError(m) => MigrationErrorView::TypeConversionError(m@),
            MigrationError::CollectionNotFound(c, d) => MigrationErrorView::CollectionNotFound(
                c@,
                d@,
            ),
            MigrationError::DatabaseNotFound(d) => MigrationErrorView::DatabaseNotFound(d@),
            MigrationError::ConfigError(m) => MigrationErrorView::ConfigError(m@),
            MigrationError::IoError(m) => MigrationErrorView::IoError(m@),
            MigrationError::BsonError(m) => MigrationErrorView::BsonError(m@),
            MigrationError::BsonDocumentError(m) => MigrationErrorView::BsonDocumentError(m@),
            MigrationError::Interrupted => MigrationErrorView::Interrupted,
            MigrationError::Other(m) => MigrationErrorView::Other(m@),
        }
    }
}

/// A result whose error is a `MigrationError`.
pub type MigrationResult<T> = Result<T, MigrationError>;

/// The text of an error, as it is shown to the user.
pub open spec fn message_text(error: MigrationErrorView) -> Seq<char> {
    match error {
        MigrationErrorView::MongoConnectionError(m) => "MongoDB connection error: "@ + m,
        MigrationErrorView::LibSqlError(m) => "LibSQL error: "@ + m,
        MigrationErrorView::SchemaInferenceError(m) => "Schema inference error: "@ + m,
        MigrationErrorView::TypeConversionError(m) => "Type conversion error: "@ + m,
        MigrationErrorView::CollectionNotFound(c, d) => "Collection '"@ + c
            + "' not found in database '"@ + d + "'"@,
        MigrationErrorView::DatabaseNotFound(d) => "Database '"@ + d + "' not found"@,
        MigrationErrorView::ConfigError(m) => "Configuration error: "@ + m,
        MigrationErrorView::IoError(m) => "I/O error: "@ + m,
        MigrationErrorView::BsonError(m) => "BSON error: "@ + m,
        MigrationErrorView::BsonDocumentError(m) => "BSON document error: "@ + m,
        MigrationErrorView::Interrupted => "Migration was interrupted"@,
        MigrationErrorView::Other(m) => m,
    }
}

fn prefixed(prefix: &str, message: &String) -> (r: String)
    ensures
        r@ == prefix@ + message@,
{
    let mut text = prefix.to_owned();
    text.append(message.as_str());
    text
}

impl MigrationError {
    /// An error of schema inference with this message.
    pub fn schema_inference(msg: &str) -> (r: MigrationError)
        ensures
            r@ == MigrationErrorView::SchemaInferenceError(msg@),
    {
        MigrationError::SchemaInferenceError(msg.to_owned())
    }

    /// An error of type conversion with this message.
    pub fn type_conversion(msg: &str) -> (r: MigrationError)
        ensures
            r@ == MigrationErrorView::TypeConversionError(msg@),
    {
        MigrationError::TypeConversionError(msg.to_owned())
    }

    /// An error of configuration with this message.
    pub fn config(msg: &str) -> (r: MigrationError)
        ensures
            r@ == MigrationErrorView::ConfigError(msg@),
    {
        MigrationError::ConfigError(msg.to_owned())
    }

    /// An error of no other kind with this message.
    pub fn other(msg: &str) -> (r: MigrationError)
        ensures
            r@ == MigrationErrorView::Other(msg@),
    {
        MigrationError::Other(msg.to_owned())
    }

    /// The text of the error, as it is shown to the user.
    pub fn message(&self) -> (r: String)
        ensures
            r@ == message_text(self@),
    {
        match self {
            MigrationError::MongoConnectionError(m) => prefixed("MongoDB connection error: ", m),
            MigrationError::LibSqlError(m) => prefixed("LibSQL error: ", m),
            MigrationError::SchemaInferenceError(m) => prefixed("Schema inference error: ", m),
            MigrationError::TypeConversionError(m) => prefixed("Type conversion error: ", m),
            MigrationError::CollectionNotFound(c, d) => {
                let mut text = prefixed("Collection '", c);
                text.append("' not found in database '");
                text.append(d.as_str());
                text.append("'");
                text
            },
            MigrationError::DatabaseNotFound(d) => {
                let mut text = prefixed("Database '", d);
                text.append("' not found");
                text
            },
            MigrationError::ConfigError(m) => prefixed("Configuration error: ", m),
            MigrationError::IoError(m) => prefixed("I/O error: ", m),
            MigrationError::BsonError(m) => prefixed("BSON error: ", m),
            MigrationError::BsonDocumentError(m) => prefixed("BSON document error: ", m),
            MigrationError::Interrupted => "Migration was interrupted".to_owned(),
            MigrationError::Other(m) => m.clone(),
        }
    }
}

} // verus!
