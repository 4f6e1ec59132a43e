//! What becomes of a stream of documents at a sink that never fails: every
//! document is committed, in full batches as long as the stream lasts, and
//! in one last batch for what is left at its end.

use vstd::prelude::*;
use crate::migration::{
    after_commit, finish_collection, full_batch, lemma_order_is_kept, next, orderly, EventView,
    ReportView, RunView, Stage,
};
use crate::transaction::{Transaction, TransactionStage};
use crate::value::Fields;

verus! {

/// The run after the sink has reported success `count` times in a row.
pub open spec fn after_good_replies(run: RunView, count: nat) -> RunView
    decreases count,
{
    if count == 0 {
        run
    } else {
        after_good_replies(next(run, EventView::Executed(0)).0, (count - 1) as nat)
    }
}

/// The run while the row at `position` of its batch is written.
pub open spec fn writing(run: RunView, position: int) -> RunView {
    RunView {
        stage: Stage::Flushing,
        transaction: Transaction {
            statements: run.batch.len() as usize,
            cursor: position as usize,
            stage: TransactionStage::Running,
        },
        ..run
    }
}

/// The run when the transaction of its batch is over.
pub open spec fn written(run: RunView) -> RunView {
    RunView {
        stage: Stage::Flushing,
        transaction: Transaction {
            statements: run.batch.len() as usize,
            cursor: run.batch.len() as usize,
            stage: TransactionStage::Closed,
        },
        ..run
    }
}

/// From the row at `position` on, a sink that reports only success takes
/// the rest of the batch and the commit.
proof fn lemma_rows_go_through(run: RunView, position: int)
    requires
        0 <= position < run.batch.len() <= usize::MAX,
    ensures
        after_good_replies(writing(run, position), (run.batch.len() - position + 1) as nat)
            == after_commit(written(run)).0,
    decreases run.batch.len() - position,
{
    let rows = run.batch.len();
    let now = writing(run, position);
    let then = next(now, EventView::Executed(0)).0;
    if position + 1 < rows {
        assert(then == writing(run, position + 1));
        lemma_rows_go_through(run, position + 1);
    } else {
        let committing = RunView {
            stage: Stage::Flushing,
            transaction: Transaction {
                statements: rows as usize,
                cursor: rows as usize,
                stage: TransactionStage::Committing,
            },
            ..run
        };
        assert(then == committing);
        assert(next(committing, EventView::Executed(0)).0 == after_commit(written(run)).0);
        assert(after_good_replies(next(committing, EventView::Executed(0)).0, 0) == next(
            committing,
            EventView::Executed(0),
        ).0);
        assert(after_good_replies(committing, 1) == next(committing, EventView::Executed(0)).0);
    }
}

/// A batch whose transaction was just begun goes through at a sink that
/// reports only success: after the begin, one insert for each row and the
/// commit, its rows count as copied.
pub proof fn lemma_batch_goes_through(run: RunView)
    requires
        run.stage == Stage::Flushing,
        1 <= run.batch.len() <= usize::MAX,
        run.transaction == (Transaction {
            statements: run.batch.len() as usize,
            cursor: 0,
            stage: TransactionStage::Beginning,
        }),
    ensures
        after_good_replies(run, run.batch.len() + 2) == after_commit(written(run)).0,
{
    let then = next(run, EventView::Executed(0)).0;
    assert(then == writing(run, 0));
    lemma_rows_go_through(run, 0);
    assert(written(then) == written(run));
}

/// The run after a document was taken and, where that filled the batch,
/// the batch was written at a sink that reports only success.
pub open spec fn after_document_taken(run: RunView, document: Fields) -> RunView {
    let taken = next(run, EventView::Document(document));
    if taken.0.stage == Stage::Flushing {
        after_good_replies(taken.0, taken.0.batch.len() + 2)
    } else {
        taken.0
    }
}

/// The run after each of these documents was taken in turn.
pub open spec fn after_documents_taken(run: RunView, documents: Seq<Fields>) -> RunView
    decreases documents.len(),
{
    if documents.len() == 0 {
        run
    } else {
        after_document_taken(after_documents_taken(run, documents.drop_last()), documents.last())
    }
}

/// What a run keeps while documents are taken: the collection it works on
/// and what it has done before.
pub open spec fn same_collection(before: RunView, after: RunView) -> bool {
    &&& after.batch_size == before.batch_size
    &&& after.sample_size == before.sample_size
    &&& after.collections == before.collections
    &&& after.plan == before.plan
    &&& after.index == before.index
    &&& after.total == before.total
    &&& after.expected == before.expected
    &&& after.insert_sql == before.insert_sql
    &&& after.field_names == before.field_names
    &&& after.reports == before.reports
}

/// Taking one document leaves the run waiting for the next, with one more
/// document gathered or committed: either the batch has grown by its row, or
/// the batch was full with it and its rows are committed.
pub proof fn lemma_document_taken(run: RunView, document: Fields)
    requires
        orderly(run),
        run.stage == Stage::Fetching,
        run.migrated + run.batch.len() + 1 <= usize::MAX,
    ensures
        orderly(after_document_taken(run, document)),
        after_document_taken(run, document).stage == Stage::Fetching,
        same_collection(run, after_document_taken(run, document)),
        after_document_taken(run, document).migrated + after_document_taken(
            run,
            document,
        ).batch.len() == run.migrated + run.batch.len() + 1,
        run.batch.len() + 1 < full_batch(run) ==> after_document_taken(run, document).migrated
            == run.migrated,
        run.batch.len() + 1 == full_batch(run) ==> after_document_taken(run, document).migrated
            == run.migrated + full_batch(run),
{
    let taken = next(run, EventView::Document(document));
    lemma_order_is_kept(run, EventView::Document(document));
    if taken.0.stage == Stage::Flushing {
        lemma_batch_goes_through(taken.0);
        let full = full_batch(run);
        let counted = run.migrated as int;
        assert((counted + full) % full == 0) by (nonlinear_arith)
            requires
                counted % full == 0,
                full > 0,
        ;
    }
}

/// Taking a run of documents leaves the run waiting for the next, with
/// every one of them gathered or committed. What is committed is a whole
/// number of full batches, and what is gathered is short of a full batch.
pub proof fn lemma_documents_taken(run: RunView, documents: Seq<Fields>)
    requires
        orderly(run),
        run.stage == Stage::Fetching,
        run.migrated + run.batch.len() + documents.len() <= usize::MAX,
    ensures
        orderly(after_documents_taken(run, documents)),
        after_documents_taken(run, documents).stage == Stage::Fetching,
        same_collection(run, after_documents_taken(run, documents)),
        after_documents_taken(run, documents).migrated + after_documents_taken(
            run,
            documents,
        ).batch.len() == run.migrated + run.batch.len() + documents.len(),
        (after_documents_taken(run, documents).migrated as int) % full_batch(run) == 0,
        after_documents_taken(run, documents).batch.len() < full_batch(run),
    decreases documents.len(),
{
    if documents.len() > 0 {
        lemma_documents_taken(run, documents.drop_last());
        lemma_document_taken(after_documents_taken(run, documents.drop_last()), documents.last());
    }
}

/// The run after the stream has ended and what was left in the batch was
/// written at a sink that reports only success.
pub open spec fn after_stream_ended(run: RunView) -> RunView {
    let ended = next(run, EventView::EndOfStream);
    if ended.0.stage == Stage::Flushing {
        after_good_replies(ended.0, ended.0.batch.len() + 2)
    } else {
        ended.0
    }
}

/// When the stream ends, what is left in the batch is committed as one
/// last batch, and the collection is done with every document counted: its
/// report says so, and the total of the run has grown by them.
pub proof fn lemma_stream_ended(run: RunView)
    requires
        orderly(run),
        run.stage == Stage::Fetching,
        run.migrated + run.batch.len() <= usize::MAX,
        run.total + run.migrated + run.batch.len() <= usize::MAX,
    ensures
        after_stream_ended(run).reports == run.reports.push(
            ReportView {
                collection: run.collections[run.index],
                expected: run.expected,
                migrated: (run.migrated + run.batch.len()) as usize,
            },
        ),
        after_stream_ended(run).total == run.total + run.migrated + run.batch.len(),
        after_stream_ended(run).batch.len() == 0,
        after_stream_ended(run).stage == Stage::Counting || after_stream_ended(run).stage
            == Stage::Idle,
{
    let ended = next(run, EventView::EndOfStream);
    if ended.0.stage == Stage::Flushing {
        lemma_batch_goes_through(ended.0);
    }
}

/// From the opening of its stream to its end, a collection of any number
/// of documents is copied whole at a sink that reports only success: the
/// report of the collection counts each of its documents.
pub proof fn lemma_stream_is_copied_whole(run: RunView, documents: Seq<Fields>)
    requires
        orderly(run),
        run.stage == Stage::Fetching,
        run.batch.len() == 0,
        run.migrated == 0,
        run.total + documents.len() <= usize::MAX,
    ensures
        after_stream_ended(after_documents_taken(run, documents)).reports == run.reports.push(
            ReportView {
                collection: run.collections[run.index],
                expected: run.expected,
                migrated: documents.len() as usize,
            },
        ),
        after_stream_ended(after_documents_taken(run, documents)).total == run.total
            + documents.len(),
{
    lemma_documents_taken(run, documents);
    lemma_stream_ended(after_documents_taken(run, documents));
}

} // verus!
