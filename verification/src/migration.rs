//! The order of a migration run: which phases run, what is asked of the
//! source and of the sink at each moment, how documents are gathered into
//! batches, and what a failure leads to.
//!
//! A `Migrator` performs nothing itself. It hands out one `Action` at a
//! time; its user performs the action and hands back what came of it as an
//! `Event`.

use vstd::prelude::*;
use vstd::string::StringExecFns;
use crate::converter::{
    convert_document, escape_identifier, quoted, row_diagnostics, row_of, Diagnostic,
};
use crate::inference::{inferred, lemma_inferred_unique, sample_view, SchemaInferrer};
use crate::schema::{column_names, create_table_text, insert_text, SchemaView};
use crate::text::strings_view;
use crate::transaction::{
    first_step, in_order, next_step, Failure, Step, Transaction, TransactionStage,
};
use crate::value::{
    duplicate_row, row_view, rows_view, Fields, SourceDocument, SqlValue, SqlValueView,
};

verus! {

/// What a run migrates.
#[derive(Clone, Copy, Debug, PartialEq, Eq, Structural)]
pub enum MigrationMode {
    /// Schema and data.
    Full,
    /// The schema only.
    SchemaOnly,
    /// The data only; the tables are taken to exist.
    DataOnly,
}

/// The mode that two flags ask for: the schema only, the data only, or,
/// where neither or both are set, everything.
pub open spec fn mode_of(schema_only: bool, data_only: bool) -> MigrationMode {
    if schema_only && !data_only {
        MigrationMode::SchemaOnly
    } else if !schema_only && data_only {
        MigrationMode::DataOnly
    } else {
        MigrationMode::Full
    }
}

impl MigrationMode {
    /// The mode that the two flags of the command line ask for.
    pub fn from_args(schema_only: bool, data_only: bool) -> (r: MigrationMode)
        ensures
            r == mode_of(schema_only, data_only),
    {
        match (schema_only, data_only) {
            (true, false) => MigrationMode::SchemaOnly,
            (false, true) => MigrationMode::DataOnly,
            _ => MigrationMode::Full,
        }
    }
}

/// The phases of a run, in the order in which they run.
#[derive(Clone, Copy, Debug, PartialEq, Eq, Structural)]
pub struct Plan {
    /// Drop each table before the schema is made.
    pub drop_tables: bool,
    /// Infer each schema and create its table.
    pub schemas: bool,
    /// Empty each table before the data is copied.
    pub truncate: bool,
    /// Copy the documents.
    pub data: bool,
}

/// The phases that a mode and the two destructive flags ask for. Tables
/// are dropped only where the schema is made anew, and emptied only where
/// the data alone is copied.
pub open spec fn plan_of(mode: MigrationMode, truncate: bool, drop_tables: bool) -> Plan {
    Plan {
        drop_tables: drop_tables && mode != MigrationMode::DataOnly,
        schemas: mode != MigrationMode::DataOnly,
        truncate: truncate && mode == MigrationMode::DataOnly,
        data: mode != MigrationMode::SchemaOnly,
    }
}

/// The phases that a mode and the two destructive flags ask for.
pub fn plan_phases(mode: MigrationMode, truncate: bool, drop_tables: bool) -> (r: Plan)
    ensures
        r == plan_of(mode, truncate, drop_tables),
{
    let schemas = match mode {
        MigrationMode::DataOnly => false,
        _ => true,
    };
    let data = match mode {
        MigrationMode::SchemaOnly => false,
        _ => true,
    };
    Plan { drop_tables: drop_tables && schemas, schemas, truncate: truncate && !schemas, data }
}

/// The statement that drops the table of a collection if it exists.
pub open spec fn drop_table_text(collection: Seq<char>) -> Seq<char> {
    "DROP TABLE IF EXISTS "@ + quoted(collection)
}

/// The statement that deletes every row of the table of a collection.
pub open spec fn truncate_table_text(collection: Seq<char>) -> Seq<char> {
    "DELETE FROM "@ + quoted(collection)
}

/// The statement that drops the table of a collection if it exists.
pub fn drop_table_sql(collection: &str) -> (r: String)
    ensures
        r@ == drop_table_text(collection@),
{
    let mut sql = "DROP TABLE IF EXISTS ".to_owned();
    sql.append(escape_identifier(collection).as_str());
    sql
}

/// The statement that deletes every row of the table of a collection.
pub fn truncate_table_sql(collection: &str) -> (r: String)
    ensures
        r@ == truncate_table_text(collection@),
{
    let mut sql = "DELETE FROM ".to_owned();
    sql.append(escape_identifier(collection).as_str());
    sql
}

/// What was copied of one collection, against what the source had counted.
#[derive(Clone, Debug, PartialEq, Eq)]
pub struct CollectionReport {
    pub collection: String,
    pub expected: u64,
    pub migrated: usize,
}

/// What a `CollectionReport` holds.
pub struct ReportView {
    pub collection: Seq<char>,
    pub expected: u64,
    pub migrated: usize,
}

impl View for CollectionReport {
    type V = ReportView;

    open spec fn view(&self) -> ReportView {
        ReportView {
            collection: self.collection@,
            expected: self.expected,
            migrated: self.migrated,
        }
    }
}

impl CollectionReport {
    /// Whether fewer or more documents were copied than were counted
    /// beforehand. That is worth a warning, and no failure.
    pub fn count_mismatch(&self) -> (r: bool)
        ensures
            r == (self.migrated as int != self.expected as int),
    {
        self.migrated as u128 != self.expected as u128
    }
}

/// What came of the last action.
#[derive(Debug)]
pub enum Event {
    /// The statement was executed, on this many rows.
    Executed(u64),
    /// The sample that was asked for.
    Sampled(Vec<SourceDocument>),
    /// The number of documents of the collection.
    Counted(u64),
    /// The stream of the collection is open.
    Opened,
    /// The next document of the stream.
    Document(SourceDocument),
    /// The stream has no more documents.
    EndOfStream,
    /// The action failed.
    Failed,
}

/// What an `Event` holds.
pub enum EventView {
    Executed(u64),
    Sampled(Seq<Fields>),
    Counted(u64),
    Opened,
    Document(Fields),
    EndOfStream,
    Failed,
}

impl View for Event {
    type V = EventView;

    open spec fn view(&self) -> EventView {
        match self {
            Event::Executed(rows) => EventView::Executed(*rows),
            Event::Sampled(documents) => EventView::Sampled(sample_view(documents@)),
            Event::Counted(count) => EventView::Counted(*count),
            Event::Opened => EventView::Opened,
            Event::Document(document) => EventView::Document(document@),
            Event::EndOfStream => EventView::EndOfStream,
            Event::Failed => EventView::Failed,
        }
    }
}

/// What is to be done next.
#[derive(Clone, Debug, PartialEq, Eq)]
pub enum Action {
    /// Execute this statement at the sink.
    Execute(String),
    /// Execute this statement at the sink with these positional values.
    ExecuteWithParams(String, Vec<SqlValue>),
    /// Draw a random sample of at most `size` documents of the collection.
    SampleDocuments { collection: String, size: usize },
    /// Count the documents of the collection.
    CountDocuments { collection: String },
    /// Open a stream of all documents of the collection.
    StreamDocuments { collection: String },
    /// Take the next document from the open stream.
    NextDocument,
    /// The run is over: this many documents were copied.
    Done(usize),
    /// The run has failed.
    Abort(Failure),
}

/// What an `Action` holds.
#[verifier::ext_equal]
pub enum ActionView {
    Execute(Seq<char>),
    ExecuteWithParams(Seq<char>, Seq<SqlValueView>),
    SampleDocuments { collection: Seq<char>, size: usize },
    CountDocuments { collection: Seq<char> },
    StreamDocuments { collection: Seq<char> },
    NextDocument,
    Done(usize),
    Abort(Failure),
}

impl View for Action {
    type V = ActionView;

    open spec fn view(&self) -> ActionView {
        match self {
            Action::Execute(sql) => ActionView::Execute(sql@),
            Action::ExecuteWithParams(sql, params) => ActionView::ExecuteWithParams(
                sql@,
                row_view(params@),
            ),
            Action::SampleDocuments { collection, size } => ActionView::SampleDocuments {
                collection: collection@,
                size: *size,
            },
            Action::CountDocuments { collection } => ActionView::CountDocuments {
                collection: collection@,
            },
            Action::StreamDocuments { collection } => ActionView::StreamDocuments {
                collection: collection@,
            },
            Action::NextDocument => ActionView::NextDocument,
            Action::Done(total) => ActionView::Done(*total),
            Action::Abort(failure) => ActionView::Abort(*failure),
        }
    }
}

/// What a run is waiting for.
#[derive(Clone, Copy, Debug, PartialEq, Eq, Structural)]
pub enum Stage {
    /// Nothing: no run is under way.
    Idle,
    /// The dropping of the table of the collection at the index.
    Dropping,
    /// The sample from which the table of the collection is made.
    SchemaSampling,
    /// The creation of the table of the collection.
    Creating,
    /// The emptying of the table of the collection.
    Truncating,
    /// The number of documents of the collection.
    Counting,
    /// The sample that gives the order of the columns of each row.
    DataSampling,
    /// The opening of the stream of the collection.
    Opening,
    /// The next document of the stream.
    Fetching,
    /// A step of the transaction that writes the batch.
    Flushing,
}

/// A run, as far as what comes next depends on it.
#[verifier::ext_equal]
pub struct RunView {
    /// Rows are written as soon as this many are gathered.
    pub batch_size: usize,
    /// Samples are asked for with this size.
    pub sample_size: usize,
    /// The collections in the order of the run.
    pub collections: Seq<Seq<char>>,
    pub plan: Plan,
    pub stage: Stage,
    /// The position of the collection that is worked on.
    pub index: int,
    /// The documents copied of the collections that are done.
    pub total: usize,
    /// The documents counted in the collection that is worked on.
    pub expected: u64,
    /// The insert statement of the collection that is worked on.
    pub insert_sql: Seq<char>,
    /// The column names of the collection that is worked on.
    pub field_names: Seq<Seq<char>>,
    /// The rows gathered and not yet committed.
    pub batch: Seq<Seq<SqlValueView>>,
    /// The transaction that writes the batch.
    pub transaction: Transaction,
    /// Whether the stream has ended, so that this batch is the last.
    pub tail: bool,
    /// The documents of this collection that are committed.
    pub migrated: usize,
    /// One report for each collection that is done.
    pub reports: Seq<ReportView>,
    /// The diagnostics of the document that was taken last.
    pub diagnostics: Seq<Diagnostic>,
}

/// The schema that a sample gives for a collection.
pub open spec fn schema_of(collection: Seq<char>, sample: Seq<Fields>) -> SchemaView {
    choose|schema: SchemaView| inferred(collection, sample, schema)
}

/// The run at rest.
pub open spec fn at_rest(run: RunView) -> RunView {
    RunView { stage: Stage::Idle, ..run }
}

/// The run fails.
pub open spec fn abort(run: RunView, failure: Failure) -> (RunView, ActionView) {
    (at_rest(run), ActionView::Abort(failure))
}

/// The data phase turns to the collection at `index`: its documents are
/// counted first. Past the last collection, or without a data phase, the run
/// is over.
pub open spec fn begin_data(run: RunView, index: int) -> (RunView, ActionView) {
    if run.plan.data && 0 <= index < run.collections.len() {
        (
            RunView { stage: Stage::Counting, index, ..run },
            ActionView::CountDocuments { collection: run.collections[index] },
        )
    } else {
        (at_rest(run), ActionView::Done(run.total))
    }
}

/// The tables are emptied, the first first; without that phase the data
/// phase begins.
pub open spec fn begin_truncate(run: RunView) -> (RunView, ActionView) {
    if run.plan.truncate && run.collections.len() > 0 {
        (
            RunView { stage: Stage::Truncating, index: 0, ..run },
            ActionView::Execute(truncate_table_text(run.collections[0])),
        )
    } else {
        begin_data(run, 0)
    }
}

/// The schema phase turns to the collection at `index`: a sample of it is
/// drawn. Past the last collection, or without a schema phase, the next
/// phase begins.
pub open spec fn begin_schema(run: RunView, index: int) -> (RunView, ActionView) {
    if run.plan.schemas && 0 <= index < run.collections.len() {
        (
            RunView { stage: Stage::SchemaSampling, index, ..run },
            ActionView::SampleDocuments {
                collection: run.collections[index],
                size: run.sample_size,
            },
        )
    } else {
        begin_truncate(run)
    }
}

/// The tables are dropped, the first first; without that phase the schema
/// phase begins.
pub open spec fn begin_drop(run: RunView) -> (RunView, ActionView) {
    if run.plan.drop_tables && run.collections.len() > 0 {
        (
            RunView { stage: Stage::Dropping, index: 0, ..run },
            ActionView::Execute(drop_table_text(run.collections[0])),
        )
    } else {
        begin_schema(run, 0)
    }
}

/// A run begins: it forgets what an earlier run left and turns to its
/// first phase.
pub open spec fn begin_run(run: RunView, collections: Seq<Seq<char>>, plan: Plan) -> (
    RunView,
    ActionView,
) {
    begin_drop(
        RunView {
            collections,
            plan,
            index: 0,
            total: 0,
            expected: 0,
            batch: Seq::empty(),
            tail: false,
            migrated: 0,
            reports: Seq::empty(),
            diagnostics: Seq::empty(),
            ..run
        },
    )
}

/// A collection is done: its report is kept, its documents are added to
/// the total, and the data phase turns to the next collection.
pub open spec fn finish_collection(run: RunView) -> (RunView, ActionView) {
    if !(0 <= run.index < run.collections.len()) {
        abort(run, Failure::Unexpected)
    } else if run.total + run.migrated > usize::MAX {
        abort(run, Failure::Overflow)
    } else {
        begin_data(
            RunView {
                total: (run.total + run.migrated) as usize,
                reports: run.reports.push(
                    ReportView {
                        collection: run.collections[run.index],
                        expected: run.expected,
                        migrated: run.migrated,
                    },
                ),
                ..run
            },
            run.index + 1,
        )
    }
}

/// The batch is committed: its rows count as copied. Then the next document
/// is taken, or, where the stream had ended, the collection is done.
pub open spec fn after_commit(run: RunView) -> (RunView, ActionView) {
    if run.migrated + run.batch.len() > usize::MAX {
        abort(run, Failure::Overflow)
    } else {
        let emptied = RunView {
            migrated: (run.migrated + run.batch.len()) as usize,
            batch: Seq::empty(),
            ..run
        };
        if run.tail {
            finish_collection(emptied)
        } else {
            (RunView { stage: Stage::Fetching, ..emptied }, ActionView::NextDocument)
        }
    }
}

/// What a step of the transaction asks of the sink, or leads to.
pub open spec fn flush_step(run: RunView, step: Step) -> (RunView, ActionView) {
    match step {
        Step::Begin => (run, ActionView::Execute("BEGIN TRANSACTION"@)),
        Step::Run(position) => if position < run.batch.len() {
            (run, ActionView::ExecuteWithParams(run.insert_sql, run.batch[position as int]))
        } else {
            abort(run, Failure::Unexpected)
        },
        Step::Commit => (run, ActionView::Execute("COMMIT"@)),
        Step::Rollback => (run, ActionView::Execute("ROLLBACK"@)),
        Step::Committed => after_commit(run),
        Step::Failed(failure) => abort(run, failure),
    }
}

/// The batch is written: a transaction is begun for its rows.
pub open spec fn begin_flush(run: RunView) -> (RunView, ActionView) {
    let first = first_step(run.batch.len() as usize, false);
    flush_step(RunView { stage: Stage::Flushing, transaction: first.0, ..run }, first.1)
}

/// The transaction takes a report and goes on.
pub open spec fn continue_flush(run: RunView, ok: bool) -> (RunView, ActionView) {
    let next = next_step(run.transaction, ok);
    flush_step(RunView { transaction: next.0, ..run }, next.1)
}

/// After a table is dropped, or could not be: the next table, or the
/// schemas.
pub open spec fn after_drop(run: RunView) -> (RunView, ActionView) {
    if 0 <= run.index + 1 < run.collections.len() {
        (
            RunView { index: run.index + 1, ..run },
            ActionView::Execute(drop_table_text(run.collections[run.index + 1])),
        )
    } else {
        begin_schema(run, 0)
    }
}

/// After a table is emptied, or could not be: the next table, or the data.
pub open spec fn after_truncate(run: RunView) -> (RunView, ActionView) {
    if 0 <= run.index + 1 < run.collections.len() {
        (
            RunView { index: run.index + 1, ..run },
            ActionView::Execute(truncate_table_text(run.collections[run.index + 1])),
        )
    } else {
        begin_data(run, 0)
    }
}

/// A sample has come in the schema phase: the table is created.
pub open spec fn after_schema_sample(run: RunView, sample: Seq<Fields>) -> (RunView, ActionView) {
    if 0 <= run.index < run.collections.len() {
        (
            RunView { stage: Stage::Creating, ..run },
            ActionView::Execute(
                create_table_text(schema_of(run.collections[run.index], sample)),
            ),
        )
    } else {
        abort(run, Failure::Unexpected)
    }
}

/// The count has come: an empty collection is done at once; of another, a
/// sample is drawn for the order of the columns.
pub open spec fn after_count(run: RunView, count: u64) -> (RunView, ActionView) {
    if !(0 <= run.index < run.collections.len()) {
        abort(run, Failure::Unexpected)
    } else if count == 0 {
        finish_collection(RunView { expected: 0, migrated: 0, batch: Seq::empty(), ..run })
    } else {
        (
            RunView { stage: Stage::DataSampling, expected: count, ..run },
            ActionView::SampleDocuments {
                collection: run.collections[run.index],
                size: run.sample_size,
            },
        )
    }
}

/// A sample has come in the data phase: it gives the insert statement and
/// the order of the columns, and the stream is opened.
pub open spec fn after_data_sample(run: RunView, sample: Seq<Fields>) -> (RunView, ActionView) {
    if 0 <= run.index < run.collections.len() {
        let schema = schema_of(run.collections[run.index], sample);
        (
            RunView {
                stage: Stage::Opening,
                insert_sql: insert_text(schema),
                field_names: column_names(schema.fields),
                ..run
            },
            ActionView::StreamDocuments { collection: run.collections[run.index] },
        )
    } else {
        abort(run, Failure::Unexpected)
    }
}

/// The stream is open: nothing is gathered or copied yet.
pub open spec fn after_open(run: RunView) -> (RunView, ActionView) {
    (
        RunView {
            stage: Stage::Fetching,
            batch: Seq::empty(),
            tail: false,
            migrated: 0,
            ..run
        },
        ActionView::NextDocument,
    )
}

/// A document has come: its row joins the batch, the diagnostics of its
/// values are kept until the next document, and a batch that has reached the
/// batch size is written.
pub open spec fn after_document(run: RunView, document: Fields) -> (RunView, ActionView) {
    let gathered = RunView {
        batch: run.batch.push(row_of(document, run.field_names)),
        diagnostics: row_diagnostics(document, run.field_names),
        ..run
    };
    if gathered.batch.len() >= run.batch_size {
        begin_flush(gathered)
    } else {
        (gathered, ActionView::NextDocument)
    }
}

/// The stream has ended: what is left in the batch is written; with
/// nothing left the collection is done.
pub open spec fn after_end(run: RunView) -> (RunView, ActionView) {
    let ended = RunView { tail: true, ..run };
    if run.batch.len() > 0 {
        begin_flush(ended)
    } else {
        finish_collection(ended)
    }
}

/// What an event leads to: the run after it, and the next action.
///
/// A table that cannot be dropped or emptied is passed over. Any other
/// failure ends the run, a failed insert after the rollback of its batch.
/// An event that does not answer the action that was handed out ends the
/// run as well.
pub open spec fn next(run: RunView, event: EventView) -> (RunView, ActionView) {
    match run.stage {
        Stage::Idle => abort(run, Failure::Unexpected),
        Stage::Dropping => match event {
            EventView::Executed(_) | EventView::Failed => after_drop(run),
            _ => abort(run, Failure::Unexpected),
        },
        Stage::SchemaSampling => match event {
            EventView::Sampled(sample) => after_schema_sample(run, sample),
            EventView::Failed => abort(run, Failure::Reply),
            _ => abort(run, Failure::Unexpected),
        },
        Stage::Creating => match event {
            EventView::Executed(_) => begin_schema(run, run.index + 1),
            EventView::Failed => abort(run, Failure::Reply),
            _ => abort(run, Failure::Unexpected),
        },
        Stage::Truncating => match event {
            EventView::Executed(_) | EventView::Failed => after_truncate(run),
            _ => abort(run, Failure::Unexpected),
        },
        Stage::Counting => match event {
            EventView::Counted(count) => after_count(run, count),
            EventView::Failed => abort(run, Failure::Reply),
            _ => abort(run, Failure::Unexpected),
        },
        Stage::DataSampling => match event {
            EventView::Sampled(sample) => after_data_sample(run, sample),
            EventView::Failed => abort(run, Failure::Reply),
            _ => abort(run, Failure::Unexpected),
        },
        Stage::Opening => match event {
            EventView::Opened => after_open(run),
            EventView::Failed => abort(run, Failure::Reply),
            _ => abort(run, Failure::Unexpected),
        },
        Stage::Fetching => match event {
            EventView::Document(document) => after_document(run, document),
            EventView::EndOfStream => after_end(run),
            EventView::Failed => abort(run, Failure::Reply),
            _ => abort(run, Failure::Unexpected),
        },
        Stage::Flushing => match event {
            EventView::Executed(_) => continue_flush(run, true),
            EventView::Failed => continue_flush(run, false),
            _ => abort(run, Failure::Unexpected),
        },
    }
}

/// The number of rows of a full batch: the batch size, and one where the
/// batch size is zero.
pub open spec fn full_batch(run: RunView) -> int {
    if run.batch_size == 0 {
        1
    } else {
        run.batch_size as int
    }
}

/// What holds of a run at every moment.
///
/// While a collection is worked on, its position is one of the run. Every
/// row of the batch has one value for each column. While documents are
/// taken, the batch is short of a full batch; while it is written, it is a
/// full batch, or what was left when the stream ended, and never empty. The
/// documents committed before the last batch are a whole number of full
/// batches. At any other time the batch is empty.
pub open spec fn orderly(run: RunView) -> bool {
    &&& run.stage != Stage::Idle ==> 0 <= run.index < run.collections.len()
    &&& forall|i: int|
        0 <= i < run.batch.len() ==> (#[trigger] run.batch[i]).len() == run.field_names.len()
    &&& run.stage != Stage::Idle && run.stage != Stage::Fetching && run.stage != Stage::Flushing
        ==> run.batch.len() == 0
    &&& run.stage == Stage::Fetching ==> run.batch.len() < full_batch(run) && !run.tail
    &&& run.stage == Stage::Flushing ==> {
        &&& 1 <= run.batch.len() <= full_batch(run)
        &&& !run.tail ==> run.batch.len() == full_batch(run)
        &&& run.transaction.statements == run.batch.len()
        &&& in_order(run.transaction)
        &&& run.transaction.stage != TransactionStage::Ready
        &&& run.transaction.stage != TransactionStage::Closed
    }
    &&& run.stage == Stage::Fetching || run.stage == Stage::Flushing ==> (run.migrated as int)
        % full_batch(run) == 0
}

/// Whether an event answers the action that a run in this stage waits for.
pub open spec fn answers(stage: Stage, event: EventView) -> bool {
    match stage {
        Stage::Idle => false,
        Stage::Dropping | Stage::Truncating | Stage::Creating | Stage::Flushing => event is Executed
            || event is Failed,
        Stage::SchemaSampling | Stage::DataSampling => event is Sampled || event is Failed,
        Stage::Counting => event is Counted || event is Failed,
        Stage::Opening => event is Opened || event is Failed,
        Stage::Fetching => event is Document || event is EndOfStream || event is Failed,
    }
}

/// A run begins in order, whatever it is asked to migrate.
pub proof fn lemma_run_begins_orderly(run: RunView, collections: Seq<Seq<char>>, plan: Plan)
    ensures
        orderly(begin_run(run, collections, plan).0),
{
}

/// Every event leaves a run in order.
pub proof fn lemma_order_is_kept(run: RunView, event: EventView)
    requires
        orderly(run),
    ensures
        orderly(next(run, event).0),
{
    let after = next(run, event).0;
    let full = full_batch(run);
    if run.stage == Stage::Fetching {
        if let EventView::Document(document) = event {
            let row = row_of(document, run.field_names);
            let gathered = run.batch.push(row);
            assert forall|i: int| 0 <= i < gathered.len() implies (#[trigger] gathered[i]).len()
                == run.field_names.len() by {
                if i < run.batch.len() {
                    assert(gathered[i] == run.batch[i]);
                }
            }
        }
    }
    if run.stage == Stage::Flushing && after.stage == Stage::Fetching {
        assert(run.batch.len() == full);
        let counted = run.migrated as int;
        assert((counted + full) % full == 0) by (nonlinear_arith)
            requires
                counted % full == 0,
                full > 0,
        ;
    }
    if run.stage == Stage::Opening {
        assert(0int % full == 0) by (nonlinear_arith)
            requires
                full > 0,
        ;
    }
}

/// In a run that is in order, an event that answers the pending action is
/// never taken for a misuse.
pub proof fn lemma_answers_are_taken(run: RunView, event: EventView)
    requires
        orderly(run),
        answers(run.stage, event),
    ensures
        next(run, event).1 != ActionView::Abort(Failure::Unexpected),
{
}

/// Rows are only handed to the sink inside a transaction: an insert is
/// asked for only while the batch is written, after the step before it went
/// through, and it is the insert statement of the collection with one row of
/// the batch.
pub proof fn lemma_inserts_inside_transaction(run: RunView, event: EventView)
    requires
        orderly(run),
        next(run, event).1 is ExecuteWithParams,
    ensures
        next(run, event).0.stage == Stage::Flushing,
        next(run, event).0.transaction.stage == TransactionStage::Running,
        run.stage == Stage::Flushing,
        event is Executed,
        next(run, event).1 == ActionView::ExecuteWithParams(
            run.insert_sql,
            run.batch[next(run, event).0.transaction.cursor as int],
        ),
{
}

/// A failed insert rolls the batch back, and whatever comes of the
/// rollback, the run fails: nothing of the batch is counted as copied.
pub proof fn lemma_failed_insert_fails_run(run: RunView, answer: EventView)
    requires
        orderly(run),
        run.stage == Stage::Flushing,
        run.transaction.stage == TransactionStage::Running,
        answer is Executed || answer is Failed,
    ensures
        next(run, EventView::Failed).1 == ActionView::Execute("ROLLBACK"@),
        next(run, EventView::Failed).0.migrated == run.migrated,
        next(run, EventView::Failed).0.total == run.total,
        next(next(run, EventView::Failed).0, answer).1 == ActionView::Abort(
            if answer is Executed {
                Failure::Statement
            } else {
                Failure::Reply
            },
        ),
        next(next(run, EventView::Failed).0, answer).0.migrated == run.migrated,
        next(next(run, EventView::Failed).0, answer).0.total == run.total,
{
}

/// Documents count as copied only when the commit of their batch went
/// through, and then the whole batch counts.
pub proof fn lemma_counted_on_commit(run: RunView, event: EventView)
    requires
        orderly(run),
        run.stage == Stage::Fetching || run.stage == Stage::Flushing,
    ensures
        next(run, event).0.migrated != run.migrated ==> {
            &&& run.stage == Stage::Flushing
            &&& run.transaction.stage == TransactionStage::Committing
            &&& event is Executed
            &&& next(run, event).0.migrated == run.migrated + run.batch.len()
        },
{
}

/// A batch is written as soon as it is full, and not before the stream
/// ends otherwise.
pub proof fn lemma_full_batches(run: RunView, document: Fields)
    requires
        orderly(run),
        run.stage == Stage::Fetching,
    ensures
        run.batch.len() + 1 == full_batch(run) ==> next(run, EventView::Document(document)).1
            == ActionView::Execute("BEGIN TRANSACTION"@),
        run.batch.len() + 1 < full_batch(run) ==> next(run, EventView::Document(document)).1
            == ActionView::NextDocument,
        next(run, EventView::Document(document)).0.batch == run.batch.push(
            row_of(document, run.field_names),
        ),
{
}

/// The views of the reports, in order.
pub open spec fn reports_view(reports: Seq<CollectionReport>) -> Seq<ReportView> {
    Seq::new(reports.len(), |i: int| reports[i]@)
}

/// The order of a migration run, for one database.
#[derive(Debug)]
pub struct Migrator {
    database_name: String,
    batch_size: usize,
    sample_size: usize,
    collections: Vec<String>,
    plan: Plan,
    stage: Stage,
    index: usize,
    total_documents: usize,
    expected: u64,
    insert_sql: String,
    field_names: Vec<String>,
    batch: Vec<Vec<SqlValue>>,
    transaction: Transaction,
    tail: bool,
    migrated: usize,
    reports: Vec<CollectionReport>,
    diagnostics: Vec<Diagnostic>,
}

impl View for Migrator {
    type V = RunView;

    closed spec fn view(&self) -> RunView {
        RunView {
            batch_size: self.batch_size,
            sample_size: self.sample_size,
            collections: strings_view(self.collections@),
            plan: self.plan,
            stage: self.stage,
            index: self.index as int,
            total: self.total_documents,
            expected: self.expected,
            insert_sql: self.insert_sql@,
            field_names: strings_view(self.field_names@),
            batch: rows_view(self.batch@),
            transaction: self.transaction,
            tail: self.tail,
            migrated: self.migrated,
            reports: reports_view(self.reports@),
            diagnostics: self.diagnostics@,
        }
    }
}

impl Migrator {
    /// The name of the database, as it was given.
    pub closed spec fn database(&self) -> Seq<char> {
        self.database_name@
    }

    /// A migrator at rest: rows are written in batches of `batch_size`,
    /// samples are asked for with `sample_size` documents.
    pub fn new(database_name: String, batch_size: usize, sample_size: usize) -> (r: Migrator)
        ensures
            r.database() == database_name@,
            r@.batch_size == batch_size,
            r@.sample_size == sample_size,
            r@.stage == Stage::Idle,
            r@.collections.len() == 0,
            r@.batch.len() == 0,
            r@.reports.len() == 0,
            r@.total == 0,
            r@.migrated == 0,
            r@.diagnostics.len() == 0,
    {
        Migrator {
            database_name,
            batch_size,
            sample_size,
            collections: Vec::new(),
            plan: Plan { drop_tables: false, schemas: false, truncate: false, data: false },
            stage: Stage::Idle,
            index: 0,
            total_documents: 0,
            expected: 0,
            insert_sql: String::new(),
            field_names: Vec::new(),
            batch: Vec::new(),
            transaction: Transaction::new(0),
            tail: false,
            migrated: 0,
            reports: Vec::new(),
            diagnostics: Vec::new(),
        }
    }

    /// The name of the database.
    pub fn database_name(&self) -> (r: &String)
        ensures
            r@ == self.database(),
    {
        &self.database_name
    }

    /// The number of rows that make a full batch.
    pub fn batch_size(&self) -> (r: usize)
        ensures
            r == self@.batch_size,
    {
        self.batch_size
    }

    /// The size of the samples that are asked for.
    pub fn sample_size(&self) -> (r: usize)
        ensures
            r == self@.sample_size,
    {
        self.sample_size
    }

    /// The documents committed of the collection that is worked on.
    pub fn migrated(&self) -> (r: usize)
        ensures
            r == self@.migrated,
    {
        self.migrated
    }

    /// The documents copied of the collections that are done.
    pub fn total_documents(&self) -> (r: usize)
        ensures
            r == self@.total,
    {
        self.total_documents
    }

    /// Whether no run is under way.
    pub fn is_idle(&self) -> (r: bool)
        ensures
            r == (self@.stage == Stage::Idle),
    {
        match self.stage {
            Stage::Idle => true,
            _ => false,
        }
    }

    /// One report for each collection that is done, in the order of the run.
    pub fn reports(&self) -> (r: &Vec<CollectionReport>)
        ensures
            reports_view(r@) == self@.reports,
    {
        &self.reports
    }

    /// The values of the document taken last that were stored as null
    /// although they held something.
    pub fn diagnostics(&self) -> (r: &Vec<Diagnostic>)
        ensures
            r@ == self@.diagnostics,
    {
        &self.diagnostics
    }

    fn abort(&mut self, failure: Failure) -> (action: Action)
        ensures
            (final(self)@, action@) == abort(old(self)@, failure),
            final(self).database() == old(self).database(),
    {
        self.stage = Stage::Idle;
        Action::Abort(failure)
    }

    fn begin_data(&mut self, index: usize) -> (action: Action)
        ensures
            (final(self)@, action@) == begin_data(old(self)@, index as int),
            final(self).database() == old(self).database(),
    {
        if self.plan.data && index < self.collections.len() {
            self.stage = Stage::Counting;
            self.index = index;
            Action::CountDocuments { collection: self.collections[index].clone() }
        } else {
            self.stage = Stage::Idle;
            Action::Done(self.total_documents)
        }
    }

    fn begin_truncate(&mut self) -> (action: Action)
        ensures
            (final(self)@, action@) == begin_truncate(old(self)@),
            final(self).database() == old(self).database(),
    {
        if self.plan.truncate && self.collections.len() > 0 {
            self.stage = Stage::Truncating;
            self.index = 0;
            Action::Execute(truncate_table_sql(self.collections[0].as_str()))
        } else {
            self.begin_data(0)
        }
    }

    fn begin_schema(&mut self, index: usize) -> (action: Action)
        ensures
            (final(self)@, action@) == begin_schema(old(self)@, index as int),
            final(self).database() == old(self).database(),
    {
        if self.plan.schemas && index < self.collections.len() {
            self.stage = Stage::SchemaSampling;
            self.index = index;
            Action::SampleDocuments {
                collection: self.collections[index].clone(),
                size: self.sample_size,
            }
        } else {
            self.begin_truncate()
        }
    }

    fn begin_drop(&mut self) -> (action: Action)
        ensures
            (final(self)@, action@) == begin_drop(old(self)@),
            final(self).database() == old(self).database(),
    {
        if self.plan.drop_tables && self.collections.len() > 0 {
            self.stage = Stage::Dropping;
            self.index = 0;
            Action::Execute(drop_table_sql(self.collections[0].as_str()))
        } else {
            self.begin_schema(0)
        }
    }

    /// Begins a run over these collections and says what to do first.
    ///
    /// Tables are dropped only where `drop_tables` is set and the mode makes
    /// the schema; they are emptied only where `truncate` is set and the mode
    /// copies the data alone. What an earlier run left is forgotten.
    pub fn migrate(
        &mut self,
        collections: Vec<String>,
        mode: MigrationMode,
        truncate: bool,
        drop_tables: bool,
    ) -> (action: Action)
        ensures
            (final(self)@, action@) == begin_run(
                old(self)@,
                strings_view(collections@),
                plan_of(mode, truncate, drop_tables),
            ),
            final(self).database() == old(self).database(),
    {
        self.collections = collections;
        self.plan = plan_phases(mode, truncate, drop_tables);
        self.index = 0;
        self.total_documents = 0;
        self.expected = 0;
        self.batch = Vec::new();
        self.tail = false;
        self.migrated = 0;
        self.reports = Vec::new();
        self.diagnostics = Vec::new();
        assert(self@.batch =~= Seq::empty());
        assert(self@.reports =~= Seq::empty());
        self.begin_drop()
    }

    fn finish_collection(&mut self) -> (action: Action)
        ensures
            (final(self)@, action@) == finish_collection(old(self)@),
            final(self).database() == old(self).database(),
    {
        if self.index >= self.collections.len() {
            return self.abort(Failure::Unexpected);
        }
        match self.total_documents.checked_add(self.migrated) {
            None => self.abort(Failure::Overflow),
            Some(total) => {
                let ghost before = self@;
                self.total_documents = total;
                self.reports.push(
                    CollectionReport {
                        collection: self.collections[self.index].clone(),
                        expected: self.expected,
                        migrated: self.migrated,
                    },
                );
                assert(self@.reports =~= before.reports.push(
                    ReportView {
                        collection: before.collections[before.index],
                        expected: before.expected,
                        migrated: before.migrated,
                    },
                ));
                self.begin_data(self.index + 1)
            },
        }
    }

    fn after_commit(&mut self) -> (action: Action)
        ensures
            (final(self)@, action@) == after_commit(old(self)@),
            final(self).database() == old(self).database(),
    {
        match self.migrated.checked_add(self.batch.len()) {
            None => self.abort(Failure::Overflow),
            Some(migrated) => {
                self.migrated = migrated;
                self.batch = Vec::new();
                assert(self@.batch =~= Seq::empty());
                if self.tail {
                    self.finish_collection()
                } else {
                    self.stage = Stage::Fetching;
                    Action::NextDocument
                }
            },
        }
    }

    fn flush_step(&mut self, step: Step) -> (action: Action)
        ensures
            (final(self)@, action@) == flush_step(old(self)@, step),
            final(self).database() == old(self).database(),
    {
        match step {
            Step::Begin => Action::Execute("BEGIN TRANSACTION".to_owned()),
            Step::Run(position) => {
                if position < self.batch.len() {
                    Action::ExecuteWithParams(
                        self.insert_sql.clone(),
                        duplicate_row(&self.batch[position]),
                    )
                } else {
                    self.abort(Failure::Unexpected)
                }
            },
            Step::Commit => Action::Execute("COMMIT".to_owned()),
            Step::Rollback => Action::Execute("ROLLBACK".to_owned()),
            Step::Committed => self.after_commit(),
            Step::Failed(failure) => self.abort(failure),
        }
    }

    fn begin_flush(&mut self) -> (action: Action)
        ensures
            (final(self)@, action@) == begin_flush(old(self)@),
            final(self).database() == old(self).database(),
    {
        let mut transaction = Transaction::new(self.batch.len());
        let step = transaction.start(false);
        self.stage = Stage::Flushing;
        self.transaction = transaction;
        self.flush_step(step)
    }

    fn continue_flush(&mut self, ok: bool) -> (action: Action)
        ensures
            (final(self)@, action@) == continue_flush(old(self)@, ok),
            final(self).database() == old(self).database(),
    {
        let mut transaction = self.transaction;
        let step = transaction.advance(ok);
        self.transaction = transaction;
        self.flush_step(step)
    }

    fn after_drop(&mut self) -> (action: Action)
        ensures
            (final(self)@, action@) == after_drop(old(self)@),
            final(self).database() == old(self).database(),
    {
        if self.index < self.collections.len() && self.index + 1 < self.collections.len() {
            self.index = self.index + 1;
            Action::Execute(drop_table_sql(self.collections[self.index].as_str()))
        } else {
            self.begin_schema(0)
        }
    }

    fn after_truncate(&mut self) -> (action: Action)
        ensures
            (final(self)@, action@) == after_truncate(old(self)@),
            final(self).database() == old(self).database(),
    {
        if self.index < self.collections.len() && self.index + 1 < self.collections.len() {
            self.index = self.index + 1;
            Action::Execute(truncate_table_sql(self.collections[self.index].as_str()))
        } else {
            self.begin_data(0)
        }
    }

    fn after_schema_sample(&mut self, sample: Vec<SourceDocument>) -> (action: Action)
        ensures
            (final(self)@, action@) == after_schema_sample(old(self)@, sample_view(sample@)),
            final(self).database() == old(self).database(),
    {
        if self.index < self.collections.len() {
            let schema = SchemaInferrer::infer_schema(
                self.collections[self.index].as_str(),
                sample.as_slice(),
            );
            proof {
                let name = self@.collections[self@.index];
                lemma_inferred_unique(
                    name,
                    sample_view(sample@),
                    schema@,
                    schema_of(name, sample_view(sample@)),
                );
            }
            self.stage = Stage::Creating;
            Action::Execute(schema.to_create_table_sql())
        } else {
            self.abort(Failure::Unexpected)
        }
    }

    fn after_count(&mut self, count: u64) -> (action: Action)
        ensures
            (final(self)@, action@) == after_count(old(self)@, count),
            final(self).database() == old(self).database(),
    {
        if self.index >= self.collections.len() {
            self.abort(Failure::Unexpected)
        } else if count == 0 {
            self.expected = 0;
            self.migrated = 0;
            self.batch = Vec::new();
            assert(self@.batch =~= Seq::empty());
            self.finish_collection()
        } else {
            self.stage = Stage::DataSampling;
            self.expected = count;
            Action::SampleDocuments {
                collection: self.collections[self.index].clone(),
                size: self.sample_size,
            }
        }
    }

    fn after_data_sample(&mut self, sample: Vec<SourceDocument>) -> (action: Action)
        ensures
            (final(self)@, action@) == after_data_sample(old(self)@, sample_view(sample@)),
            final(self).database() == old(self).database(),
    {
        if self.index < self.collections.len() {
            let schema = SchemaInferrer::infer_schema(
                self.collections[self.index].as_str(),
                sample.as_slice(),
            );
            proof {
                let name = self@.collections[self@.index];
                lemma_inferred_unique(
                    name,
                    sample_view(sample@),
                    schema@,
                    schema_of(name, sample_view(sample@)),
                );
            }
            self.stage = Stage::Opening;
            self.insert_sql = schema.to_insert_sql();
            self.field_names = schema.field_names();
            Action::StreamDocuments { collection: self.collections[self.index].clone() }
        } else {
            self.abort(Failure::Unexpected)
        }
    }

    fn after_open(&mut self) -> (action: Action)
        ensures
            (final(self)@, action@) == after_open(old(self)@),
            final(self).database() == old(self).database(),
    {
        self.stage = Stage::Fetching;
        self.batch = Vec::new();
        self.tail = false;
        self.migrated = 0;
        assert(self@.batch =~= Seq::empty());
        Action::NextDocument
    }

    fn after_document(&mut self, document: SourceDocument) -> (action: Action)
        ensures
            (final(self)@, action@) == after_document(old(self)@, document@),
            final(self).database() == old(self).database(),
    {
        let ghost before = self@;
        let (row, diagnostics) = convert_document(&document, self.field_names.as_slice());
        self.batch.push(row);
        self.diagnostics = diagnostics;
        assert(self@.batch =~= before.batch.push(row_of(document@, before.field_names)));
        if self.batch.len() >= self.batch_size {
            self.begin_flush()
        } else {
            Action::NextDocument
        }
    }

    fn after_end(&mut self) -> (action: Action)
        ensures
            (final(self)@, action@) == after_end(old(self)@),
            final(self).database() == old(self).database(),
    {
        self.tail = true;
        if self.batch.len() > 0 {
            self.begin_flush()
        } else {
            self.finish_collection()
        }
    }

    /// Takes what came of the last action and says what to do next.
    pub fn step(&mut self, event: Event) -> (action: Action)
        ensures
            (final(self)@, action@) == next(old(self)@, event@),
            final(self).database() == old(self).database(),
    {
        match self.stage {
            Stage::Idle => self.abort(Failure::Unexpected),
            Stage::Dropping => match event {
                Event::Executed(_) | Event::Failed => self.after_drop(),
                _ => self.abort(Failure::Unexpected),
            },
            Stage::SchemaSampling => match event {
                Event::Sampled(sample) => self.after_schema_sample(sample),
                Event::Failed => self.abort(Failure::Reply),
                _ => self.abort(Failure::Unexpected),
            },
            Stage::Creating => match event {
                Event::Executed(_) => {
                    if self.index < self.collections.len() {
                        self.begin_schema(self.index + 1)
                    } else {
                        self.begin_truncate()
                    }
                },
                Event::Failed => self.abort(Failure::Reply),
                _ => self.abort(Failure::Unexpected),
            },
            Stage::Truncating => match event {
                Event::Executed(_) | Event::Failed => self.after_truncate(),
                _ => self.abort(Failure::Unexpected),
            },
            Stage::Counting => match event {
                Event::Counted(count) => self.after_count(count),
                Event::Failed => self.abort(Failure::Reply),
                _ => self.abort(Failure::Unexpected),
            },
            Stage::DataSampling => match event {
                Event::Sampled(sample) => self.after_data_sample(sample),
                Event::Failed => self.abort(Failure::Reply),
                _ => self.abort(Failure::Unexpected),
            },
            Stage::Opening => match event {
                Event::Opened => self.after_open(),
                Event::Failed => self.abort(Failure::Reply),
                _ => self.abort(Failure::Unexpected),
            },
            Stage::Fetching => match event {
                Event::Document(document) => self.after_document(document),
                Event::EndOfStream => self.after_end(),
                Event::Failed => self.abort(Failure::Reply),
                _ => self.abort(Failure::Unexpected),
            },
            Stage::Flushing => match event {
                Event::Executed(_) => self.continue_flush(true),
                Event::Failed => self.continue_flush(false),
                _ => self.abort(Failure::Unexpected),
            },
        }
    }
}

} // verus!
