//! The arguments of the command line and what is asked of them.

use vstd::prelude::*;
use vstd::string::StringExecFns;
use crate::error::{MigrationError, MigrationErrorView};

verus! {

/// The arguments of a migration, as the command line gives them.
#[derive(Clone, Debug, PartialEq, Eq)]
pub struct Args {
    /// The database to migrate.
    pub database: String,
    /// Where the source is reached.
    pub mongodb_uri: String,
    /// The one collection to migrate.
    pub table: Option<String>,
    /// Migrate every collection of the database.
    pub all_tables: bool,
    /// Make the schema and copy no data.
    pub schema_only: bool,
    /// Copy the data and make no schema.
    pub data_only: bool,
    /// Empty the tables before the data is copied.
    pub truncate: bool,
    /// Drop the tables before the schema is made.
    pub drop_tables: bool,
    /// The file of the local sink.
    pub output: Option<String>,
    /// The number of rows of a batch.
    pub batch_size: usize,
    /// The number of documents of a sample.
    pub sample_size: usize,
}

/// What is wrong with the arguments, the first fault first: no collection
/// is chosen, the batch size is zero, or the sample size is zero.
pub open spec fn fault_of(args: Args) -> Option<Seq<char>> {
    if args.table.is_none() && !args.all_tables {
        Some("Either --table <TABLE> or --all-tables must be specified"@)
    } else if args.batch_size == 0 {
        Some("--batch-size must be greater than 0"@)
    } else if args.sample_size == 0 {
        Some("--sample-size must be greater than 0"@)
    } else {
        None
    }
}

/// Which collections a run is to migrate.
#[derive(Clone, Debug, PartialEq, Eq)]
pub enum Selection {
    /// Every collection that the database lists.
    AllTables,
    /// This one collection.
    Table(String),
}

/// What a `Selection` holds.
pub enum SelectionView {
    AllTables,
    Table(Seq<char>),
}

impl View for Selection {
    type V = SelectionView;

    open spec fn view(&self) -> SelectionView {
        match self {
            Selection::AllTables => SelectionView::AllTables,
            Selection::Table(table) => SelectionView::Table(table@),
        }
    }
}

/// The collections that the arguments choose: all of them where that is
/// asked for, else the one that is named, if one is.
pub open spec fn selection_of(args: Args) -> Option<SelectionView> {
    if args.all_tables {
        Some(SelectionView::AllTables)
    } else {
        match args.table {
            Some(table) => Some(SelectionView::Table(table@)),
            None => None,
        }
    }
}

/// The text of the error for a database without collections.
pub open spec fn no_collections_text(database: Seq<char>) -> Seq<char> {
    "No collections found in database '"@ + database + "'"@
}

/// The collections of a run, unless there are none: a run over nothing is
/// an error that names the database.
pub fn require_collections(collections: Vec<String>, database: &str) -> (r: Result<
    Vec<String>,
    MigrationError,
>)
    ensures
        match r {
            Ok(kept) => collections@.len() > 0 && kept == collections,
            Err(error) => collections@.len() == 0 && error@ == MigrationErrorView::Other(
                no_collections_text(database@),
            ),
        },
{
    if collections.len() == 0 {
        let mut text = "No collections found in database '".to_owned();
        text.append(database);
        text.append("'");
        Err(MigrationError::Other(text))
    } else {
        Ok(collections)
    }
}

impl Args {
    /// The collections that the arguments choose. Where neither all nor one
    /// is chosen, that is an error of configuration.
    pub fn selection(&self) -> (r: Result<Selection, MigrationError>)
        ensures
            match r {
                Ok(selection) => selection_of(*self) == Some(selection@),
                Err(error) => selection_of(*self).is_none() && error@
                    == MigrationErrorView::ConfigError(
                    "Either --all-tables or --table must be specified"@,
                ),
            },
    {
        if self.all_tables {
            Ok(Selection::AllTables)
        } else {
            match &self.table {
                Some(table) => Ok(Selection::Table(table.clone())),
                None => Err(
                    MigrationError::config("Either --all-tables or --table must be specified"),
                ),
            }
        }
    }

    /// Checks that a collection is chosen and that the two sizes are not
    /// zero. The first fault found is returned as an error of configuration.
    pub fn validate(&self) -> (r: Result<(), MigrationError>)
        ensures
            match r {
                Ok(_) => fault_of(*self).is_none(),
                Err(error) => fault_of(*self) == Some(error@->ConfigError_0) && error@
                    is ConfigError,
            },
    {
        if self.table.is_none() && !self.all_tables {
            return Err(
                MigrationError::config("Either --table <TABLE> or --all-tables must be specified"),
            );
        }
        if self.batch_size == 0 {
            return Err(MigrationError::config("--batch-size must be greater than 0"));
        }
        if self.sample_size == 0 {
            return Err(MigrationError::config("--sample-size must be greater than 0"));
        }
        Ok(())
    }
}

} // verus!
