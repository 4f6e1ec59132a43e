//! The bracket around a batch of statements: begin, the statements one by
//! one, then commit; or, as soon as one of them fails, roll back.
//!
//! Nothing here touches a sink. A `Transaction` says what to do next; its
//! user does it and reports whether it succeeded.

use vstd::prelude::*;

verus! {

/// Where a transaction stands.
#[derive(Clone, Copy, Debug, PartialEq, Eq, Structural)]
pub enum TransactionStage {
    /// Nothing was asked for yet.
    Ready,
    /// The begin was asked for.
    Beginning,
    /// The statement at the cursor was asked for.
    Running,
    /// The commit was asked for.
    Committing,
    /// The rollback was asked for, after a statement failed.
    RollingBack,
    /// It is over.
    Closed,
}

/// Why a transaction failed: whose error is the error of the whole.
#[derive(Clone, Copy, Debug, PartialEq, Eq, Structural)]
pub enum Failure {
    /// The step that just failed: a begin, a commit or a rollback.
    Reply,
    /// The statement that failed before the rollback, which went through.
    Statement,
    /// A report came in although nothing had been asked for.
    Unexpected,
    /// A count of documents no longer fits the machine's numbers.
    Overflow,
}

/// What is to be done next.
#[derive(Clone, Copy, Debug, PartialEq, Eq, Structural)]
pub enum Step {
    /// Begin a transaction.
    Begin,
    /// Execute the statement at this position of the batch.
    Run(usize),
    /// Commit.
    Commit,
    /// Roll back.
    Rollback,
    /// Nothing more: every statement was executed and committed.
    Committed,
    /// Nothing more: the batch failed, and nothing of it was committed.
    Failed(Failure),
}

/// One batch of statements on its way through a sink.
#[derive(Clone, Copy, Debug, PartialEq, Eq, Structural)]
pub struct Transaction {
    /// The number of statements of the batch.
    pub statements: usize,
    /// The position of the statement that is under way, or that comes next.
    pub cursor: usize,
    /// Where the transaction stands.
    pub stage: TransactionStage,
}

/// A transaction that is over.
pub open spec fn closed(t: Transaction) -> Transaction {
    Transaction { stage: TransactionStage::Closed, ..t }
}

/// The first step of a batch. An empty batch is committed as it is, without
/// a word to the sink, unless `always_begin` asks for the bracket all the
/// same.
pub open spec fn first_step(statements: usize, always_begin: bool) -> (Transaction, Step) {
    if statements == 0 && !always_begin {
        (
            Transaction { statements, cursor: 0, stage: TransactionStage::Closed },
            Step::Committed,
        )
    } else {
        (Transaction { statements, cursor: 0, stage: TransactionStage::Beginning }, Step::Begin)
    }
}

/// What follows the report that the last step succeeded (`ok`) or failed.
///
/// After the begin come the statements in order, each after the one before
/// it succeeded, and after the last the commit. A statement that fails is
/// followed by the rollback and then by the failure of the batch, under the
/// statement's error where the rollback went through. A begin, a commit or a
/// rollback that fails is the failure of the batch at once.
pub open spec fn next_step(t: Transaction, ok: bool) -> (Transaction, Step) {
    match t.stage {
        TransactionStage::Ready | TransactionStage::Closed => (
            closed(t),
            Step::Failed(Failure::Unexpected),
        ),
        TransactionStage::Beginning => if !ok {
            (closed(t), Step::Failed(Failure::Reply))
        } else if t.statements == 0 {
            (Transaction { stage: TransactionStage::Committing, ..t }, Step::Commit)
        } else {
            (
                Transaction { stage: TransactionStage::Running, cursor: 0, ..t },
                Step::Run(0),
            )
        },
        TransactionStage::Running => if !ok {
            (Transaction { stage: TransactionStage::RollingBack, ..t }, Step::Rollback)
        } else if t.cursor + 1 < t.statements {
            (
                Transaction { cursor: (t.cursor + 1) as usize, ..t },
                Step::Run((t.cursor + 1) as usize),
            )
        } else {
            (
                Transaction { stage: TransactionStage::Committing, cursor: t.statements, ..t },
                Step::Commit,
            )
        },
        TransactionStage::Committing => if ok {
            (closed(t), Step::Committed)
        } else {
            (closed(t), Step::Failed(Failure::Reply))
        },
        TransactionStage::RollingBack => if ok {
            (closed(t), Step::Failed(Failure::Statement))
        } else {
            (closed(t), Step::Failed(Failure::Reply))
        },
    }
}

/// What holds of a transaction at every moment: a statement that is under
/// way is one of the batch, and the commit is only asked for when every
/// statement went through.
pub open spec fn in_order(t: Transaction) -> bool {
    &&& t.cursor <= t.statements
    &&& t.stage == TransactionStage::Running ==> t.cursor < t.statements
    &&& t.stage == TransactionStage::Committing ==> t.cursor == t.statements
}

impl Transaction {
    /// A transaction for a batch of `statements` statements, not yet begun.
    pub fn new(statements: usize) -> (r: Transaction)
        ensures
            r == (Transaction { statements, cursor: 0, stage: TransactionStage::Ready }),
            in_order(r),
    {
        Transaction { statements, cursor: 0, stage: TransactionStage::Ready }
    }

    /// Starts over with this batch and says what to do first.
    pub fn start(&mut self, always_begin: bool) -> (step: Step)
        ensures
            (*final(self), step) == first_step(old(self).statements, always_begin),
    {
        if self.statements == 0 && !always_begin {
            self.cursor = 0;
            self.stage = TransactionStage::Closed;
            Step::Committed
        } else {
            self.cursor = 0;
            self.stage = TransactionStage::Beginning;
            Step::Begin
        }
    }

    /// Takes the report on the last step and says what to do next.
    pub fn advance(&mut self, ok: bool) -> (step: Step)
        ensures
            (*final(self), step) == next_step(*old(self), ok),
    {
        match self.stage {
            TransactionStage::Ready | TransactionStage::Closed => {
                self.stage = TransactionStage::Closed;
                Step::Failed(Failure::Unexpected)
            },
            TransactionStage::Beginning => {
                if !ok {
                    self.stage = TransactionStage::Closed;
                    Step::Failed(Failure::Reply)
                } else if self.statements == 0 {
                    self.stage = TransactionStage::Committing;
                    Step::Commit
                } else {
                    self.stage = TransactionStage::Running;
                    self.cursor = 0;
                    Step::Run(0)
                }
            },
            TransactionStage::Running => {
                if !ok {
                    self.stage = TransactionStage::RollingBack;
                    Step::Rollback
                } else if self.cursor < self.statements && self.cursor + 1 < self.statements {
                    self.cursor = self.cursor + 1;
                    Step::Run(self.cursor)
                } else {
                    self.stage = TransactionStage::Committing;
                    self.cursor = self.statements;
                    Step::Commit
                }
            },
            TransactionStage::Committing => {
                self.stage = TransactionStage::Closed;
                if ok {
                    Step::Committed
                } else {
                    Step::Failed(Failure::Reply)
                }
            },
            TransactionStage::RollingBack => {
                self.stage = TransactionStage::Closed;
                if ok {
                    Step::Failed(Failure::Statement)
                } else {
                    Step::Failed(Failure::Reply)
                }
            },
        }
    }

    /// Whether the transaction is over.
    pub fn is_closed(&self) -> (r: bool)
        ensures
            r == (self.stage == TransactionStage::Closed),
    {
        match self.stage {
            TransactionStage::Closed => true,
            _ => false,
        }
    }
}

/// The steps that a run of reports brings, one after each report, from
/// where the transaction stands.
pub open spec fn steps_after(t: Transaction, reports: Seq<bool>) -> Seq<Step>
    decreases reports.len(),
{
    if reports.len() == 0 {
        Seq::empty()
    } else {
        seq![next_step(t, reports[0]).1] + steps_after(
            next_step(t, reports[0]).0,
            reports.drop_first(),
        )
    }
}

/// Where the transaction stands after a run of reports.
pub open spec fn stage_after(t: Transaction, reports: Seq<bool>) -> Transaction
    decreases reports.len(),
{
    if reports.len() == 0 {
        t
    } else {
        stage_after(next_step(t, reports[0]).0, reports.drop_first())
    }
}

/// The order of a transaction is kept by its first step and by every step
/// after it.
pub proof fn lemma_steps_keep_order(t: Transaction, ok: bool, always_begin: bool)
    ensures
        in_order(first_step(t.statements, always_begin).0),
        in_order(t) ==> in_order(next_step(t, ok).0),
{
}

/// A statement is only ever asked for inside the bracket, and it is the one
/// that follows the statement that just went through.
pub proof fn lemma_statements_in_sequence(t: Transaction, ok: bool, position: usize)
    requires
        in_order(t),
        next_step(t, ok).1 == Step::Run(position),
    ensures
        ok,
        position < t.statements,
        t.stage == TransactionStage::Beginning ==> position == 0,
        t.stage == TransactionStage::Running ==> position == t.cursor + 1,
        t.stage == TransactionStage::Beginning || t.stage == TransactionStage::Running,
{
}

/// A batch is committed only after each of its statements went through,
/// and reported as committed only after the commit went through. A failure
/// anywhere ends in `Failed`, never in `Committed`.
pub proof fn lemma_commit_needs_all(t: Transaction, ok: bool)
    requires
        in_order(t),
    ensures
        next_step(t, ok).1 == Step::Commit ==> ok && next_step(t, ok).0.cursor == t.statements,
        next_step(t, ok).1 == Step::Committed ==> ok && t.stage == TransactionStage::Committing,
        !ok ==> next_step(t, ok).1 == Step::Rollback || next_step(t, ok).1 is Failed,
        !ok && t.stage == TransactionStage::Running ==> next_step(t, ok).1 == Step::Rollback,
        t.stage == TransactionStage::RollingBack ==> next_step(t, ok).1 is Failed,
{
}

/// While the statements go through, the steps come in order: after `done`
/// good reports in a row, counted from the begin, the statement under way is
/// the one at position `done - 1`.
pub proof fn lemma_good_reports(statements: usize, done: nat)
    requires
        1 <= done <= statements,
    ensures
        stage_after(first_step(statements, false).0, Seq::new(done, |i: int| true)) == (
        Transaction { statements, cursor: (done - 1) as usize, stage: TransactionStage::Running }),
    decreases done,
{
    let start = first_step(statements, false).0;
    let reports = Seq::new(done, |i: int| true);
    if done == 1 {
        assert(reports.drop_first() =~= Seq::<bool>::empty());
        assert(stage_after(next_step(start, true).0, reports.drop_first()) == next_step(
            start,
            true,
        ).0);
    } else {
        let shorter = Seq::new((done - 1) as nat, |i: int| true);
        lemma_good_reports(statements, (done - 1) as nat);
        lemma_stage_after_push(start, shorter, true);
        assert(shorter.push(true) =~= reports);
    }
}

/// A run of reports and one more: the last report is taken where the run
/// before it has led.
pub proof fn lemma_stage_after_push(t: Transaction, reports: Seq<bool>, last: bool)
    ensures
        stage_after(t, reports.push(last)) == next_step(stage_after(t, reports), last).0,
        steps_after(t, reports.push(last)) == steps_after(t, reports).push(
            next_step(stage_after(t, reports), last).1,
        ),
    decreases reports.len(),
{
    let longer = reports.push(last);
    if reports.len() == 0 {
        assert(longer.drop_first() =~= Seq::<bool>::empty());
        assert(longer[0] == last);
        assert(steps_after(next_step(t, last).0, longer.drop_first()) =~= Seq::<Step>::empty());
        assert(steps_after(t, longer) =~= seq![next_step(t, last).1]);
    } else {
        assert(longer.drop_first() =~= reports.drop_first().push(last));
        lemma_stage_after_push(next_step(t, reports[0]).0, reports.drop_first(), last);
        assert(steps_after(t, longer) =~= steps_after(t, reports).push(
            next_step(stage_after(t, reports), last).1,
        ));
    }
}

/// A batch of `statements` statements that all go through takes the begin,
/// each statement once and in order, and the commit: `statements + 2` steps
/// at the sink, and then it is committed.
pub proof fn lemma_whole_batch(statements: usize)
    requires
        statements >= 1,
    ensures
        first_step(statements, false).1 == Step::Begin,
        steps_after(
            first_step(statements, false).0,
            Seq::new((statements + 1) as nat, |i: int| true),
        ) == Seq::new(
            (statements + 1) as nat,
            |i: int|
                if i < statements {
                    Step::Run(i as usize)
                } else {
                    Step::Commit
                },
        ),
        next_step(
            stage_after(
                first_step(statements, false).0,
                Seq::new((statements + 1) as nat, |i: int| true),
            ),
            true,
        ).1 == Step::Committed,
{
    let start = first_step(statements, false).0;
    lemma_steps_prefix(statements, statements as nat);
    let shorter = Seq::new(statements as nat, |i: int| true);
    let reports = Seq::new((statements + 1) as nat, |i: int| true);
    lemma_good_reports(statements, statements as nat);
    lemma_stage_after_push(start, shorter, true);
    assert(shorter.push(true) =~= reports);
    assert(steps_after(start, reports) =~= Seq::new(
        (statements + 1) as nat,
        |i: int|
            if i < statements {
                Step::Run(i as usize)
            } else {
                Step::Commit
            },
    ));
}

/// The first `done` good reports bring the first `done` statements.
proof fn lemma_steps_prefix(statements: usize, done: nat)
    requires
        1 <= done <= statements,
    ensures
        steps_after(first_step(statements, false).0, Seq::new(done, |i: int| true)) == Seq::new(
            done,
            |i: int| Step::Run(i as usize),
        ),
    decreases done,
{
    let start = first_step(statements, false).0;
    let reports = Seq::new(done, |i: int| true);
    if done == 1 {
        assert(reports.drop_first() =~= Seq::<bool>::empty());
        assert(steps_after(next_step(start, true).0, reports.drop_first()) =~= Seq::<
            Step,
        >::empty());
        assert(steps_after(start, reports) =~= Seq::new(done, |i: int| Step::Run(i as usize)));
    } else {
        let shorter = Seq::new((done - 1) as nat, |i: int| true);
        lemma_steps_prefix(statements, (done - 1) as nat);
        lemma_good_reports(statements, (done - 1) as nat);
        lemma_stage_after_push(start, shorter, true);
        assert(shorter.push(true) =~= reports);
        assert(steps_after(start, reports) =~= Seq::new(done, |i: int| Step::Run(i as usize)));
    }
}

} // verus!
