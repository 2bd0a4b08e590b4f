//! The statements by which one event is written, as one transaction.
//!
//! [`EventTransaction`] hands out one statement after the other and is told how
//! each went. The first failure leads to a roll back, so that an event is
//! written as a whole or not at all.

use vstd::prelude::*;

use crate::db::{
    ChangeView, EventPlan, EventRow, PlanView, ResourceChange, RetiredRow, RetiredView,
};
use crate::store::{RecordedEvent, Store};

verus! {

/// What a transaction waits for.
#[derive(Debug, Clone, Copy, PartialEq, Eq, Structural)]
pub enum Stage {
    /// A row is copied to the archive.
    Archiving,
    /// The archived row is deleted.
    Deleting,
    /// The live resources change.
    Changing,
    /// The event is appended to the history.
    Appending,
    Committing,
    RollingBack,
    /// The event was written.
    Committed,
    /// The event was not written.
    RolledBack,
}

/// What is to be done to the database next.
#[derive(Debug, Clone)]
pub enum TableAction<'a> {
    /// Copy the row to the archive.
    Archive(&'a RetiredRow),
    /// Delete the live row with this id.
    Delete { id: i64 },
    /// Change the live resources.
    Change(&'a ResourceChange),
    /// Append the event to the history, with the id of the archived row.
    Append { event: &'a EventRow, archive_id: Option<i64> },
    Commit,
    RollBack,
    /// Nothing is left to do.
    Finish { written: bool },
}

/// The contents of a [`TableAction`].
pub enum TableActionView {
    Archive(RetiredView),
    Delete { id: int },
    Change(ChangeView),
    Append(RecordedEvent),
    Commit,
    RollBack,
    Finish { written: bool },
}

/// The id in an optional column.
pub open spec fn optional_id(id: Option<i64>) -> Option<int> {
    match id {
        Some(n) => Some(n as int),
        None => None,
    }
}

impl<'a> View for TableAction<'a> {
    type V = TableActionView;

    open spec fn view(&self) -> TableActionView {
        match self {
            TableAction::Archive(retired) => TableActionView::Archive(retired@),
            TableAction::Delete { id } => TableActionView::Delete { id: *id as int },
            TableAction::Change(change) => TableActionView::Change(change@),
            TableAction::Append { event, archive_id } => TableActionView::Append(
                RecordedEvent { columns: event@, archive_id: optional_id(*archive_id) },
            ),
            TableAction::Commit => TableActionView::Commit,
            TableAction::RollBack => TableActionView::RollBack,
            TableAction::Finish { written } => TableActionView::Finish { written: *written },
        }
    }
}

/// How a statement went.
#[derive(Debug, Clone, Copy)]
pub enum StatementOutcome {
    /// It was carried out. For a row that was archived, `id` is its id.
    Done { id: i64 },
    Failed,
}

/// The contents of a [`StatementOutcome`].
pub enum OutcomeView {
    Done { id: int },
    Failed,
}

impl View for StatementOutcome {
    type V = OutcomeView;

    open spec fn view(&self) -> OutcomeView {
        match self {
            StatementOutcome::Done { id } => OutcomeView::Done { id: *id as int },
            StatementOutcome::Failed => OutcomeView::Failed,
        }
    }
}

/// The contents of an [`EventTransaction`].
pub struct TransactionView {
    pub plan: PlanView,
    pub stage: Stage,
    pub archive_id: Option<int>,
}

impl TransactionView {
    /// The transaction for a plan of which nothing was carried out.
    pub open spec fn begun(plan: PlanView) -> TransactionView {
        TransactionView {
            plan,
            stage: if plan.retired is Some {
                Stage::Archiving
            } else {
                Stage::Changing
            },
            archive_id: None,
        }
    }

    /// A row is archived and deleted only where the plan retires one.
    pub open spec fn wf(self) -> bool {
        self.stage == Stage::Archiving || self.stage == Stage::Deleting ==> self.plan.retired
            is Some
    }

    /// What is to be done next.
    pub open spec fn action(self) -> TableActionView {
        match self.stage {
            Stage::Archiving => TableActionView::Archive(self.plan.retired->0),
            Stage::Deleting => TableActionView::Delete { id: self.plan.retired->0.row.id },
            Stage::Changing => TableActionView::Change(self.plan.change),
            Stage::Appending => TableActionView::Append(
                RecordedEvent { columns: self.plan.event, archive_id: self.archive_id },
            ),
            Stage::Committing => TableActionView::Commit,
            Stage::RollingBack => TableActionView::RollBack,
            Stage::Committed => TableActionView::Finish { written: true },
            Stage::RolledBack => TableActionView::Finish { written: false },
        }
    }

    /// The transaction once it is known how the action went.
    pub open spec fn after(self, outcome: OutcomeView) -> TransactionView {
        match self.stage {
            Stage::Committed | Stage::RolledBack => self,
            Stage::RollingBack => TransactionView { stage: Stage::RolledBack, ..self },
            _ => match outcome {
                OutcomeView::Failed => TransactionView { stage: Stage::RollingBack, ..self },
                OutcomeView::Done { id } => match self.stage {
                    Stage::Archiving => TransactionView {
                        stage: Stage::Deleting,
                        archive_id: Some(id),
                        ..self
                    },
                    Stage::Deleting => TransactionView { stage: Stage::Changing, ..self },
                    Stage::Changing => TransactionView { stage: Stage::Appending, ..self },
                    Stage::Appending => TransactionView { stage: Stage::Committing, ..self },
                    _ => TransactionView { stage: Stage::Committed, ..self },
                },
            },
        }
    }
}

/// A plan that is being carried out.
pub struct EventTransaction {
    plan: EventPlan,
    stage: Stage,
    archive_id: Option<i64>,
}

impl View for EventTransaction {
    type V = TransactionView;

    closed spec fn view(&self) -> TransactionView {
        TransactionView {
            plan: self.plan@,
            stage: self.stage,
            archive_id: optional_id(self.archive_id),
        }
    }
}

impl EventTransaction {
    /// Begins to carry out a plan.
    pub fn new(plan: EventPlan) -> (transaction: EventTransaction)
        ensures
            transaction@ == TransactionView::begun(plan@),
            transaction@.wf(),
    {
        let stage: Stage = if plan.retired.is_some() {
            Stage::Archiving
        } else {
            Stage::Changing
        };
        EventTransaction { plan, stage, archive_id: None }
    }

    /// Says what is to be done next.
    pub fn next_action(&self) -> (action: TableAction<'_>)
        requires
            self@.wf(),
        ensures
            action@ == self@.action(),
    {
        match self.stage {
            Stage::Archiving => match &self.plan.retired {
                Some(retired) => TableAction::Archive(retired),
                None => TableAction::RollBack,
            },
            Stage::Deleting => match &self.plan.retired {
                Some(retired) => TableAction::Delete { id: retired.row.id },
                None => TableAction::RollBack,
            },
            Stage::Changing => TableAction::Change(&self.plan.change),
            Stage::Appending => TableAction::Append {
                event: &self.plan.event,
                archive_id: self.archive_id,
            },
            Stage::Committing => TableAction::Commit,
            Stage::RollingBack => TableAction::RollBack,
            Stage::Committed => TableAction::Finish { written: true },
            Stage::RolledBack => TableAction::Finish { written: false },
        }
    }

    /// Takes note of how the action went.
    pub fn completed(&mut self, outcome: StatementOutcome)
        ensures
            final(self)@ == old(self)@.after(outcome@),
            old(self)@.wf() ==> final(self)@.wf(),
    {
        let next: Stage = match outcome {
            StatementOutcome::Done { id } => match self.stage {
                Stage::Archiving => {
                    self.archive_id = Some(id);
                    Stage::Deleting
                },
                Stage::Deleting => Stage::Changing,
                Stage::Changing => Stage::Appending,
                Stage::Appending => Stage::Committing,
                Stage::Committing | Stage::Committed => Stage::Committed,
                Stage::RollingBack | Stage::RolledBack => Stage::RolledBack,
            },
            StatementOutcome::Failed => match self.stage {
                Stage::Committed => Stage::Committed,
                Stage::RollingBack | Stage::RolledBack => Stage::RolledBack,
                _ => Stage::RollingBack,
            },
        };
        self.stage = next;
    }
}

// ---------------------------------------------------------------------------
// A model of the database
// ---------------------------------------------------------------------------

/// The tables as they are for everyone, and as they are within the open
/// transaction.
pub struct Tables {
    pub committed: Store,
    pub working: Store,
}

/// The tables when a transaction opens.
pub open spec fn opened(store: Store) -> Tables {
    Tables { committed: store, working: store }
}

/// The tables after an action was carried out.
pub open spec fn performed(tables: Tables, action: TableActionView) -> Tables {
    match action {
        TableActionView::Archive(retired) => Tables {
            working: crate::store::after_archiving(tables.working, retired),
            ..tables
        },
        TableActionView::Delete { id } => Tables {
            working: crate::store::after_deleting(tables.working, id),
            ..tables
        },
        TableActionView::Change(change) => Tables {
            working: crate::store::after_change(tables.working, change),
            ..tables
        },
        TableActionView::Append(event) => Tables {
            working: crate::store::after_append(tables.working, event),
            ..tables
        },
        TableActionView::Commit => Tables { committed: tables.working, ..tables },
        TableActionView::RollBack => Tables { working: tables.committed, ..tables },
        TableActionView::Finish { .. } => tables,
    }
}

/// A transaction and the tables after so many actions of which it is known
/// whether they succeeded. One that failed changed nothing, but for a roll
/// back: what was not committed is lost even then.
pub open spec fn run(plan: PlanView, store: Store, successes: Seq<bool>) -> (
    TransactionView,
    Tables,
)
    decreases successes.len(),
{
    if successes.len() == 0 {
        (TransactionView::begun(plan), opened(store))
    } else {
        let (transaction, tables) = run(plan, store, successes.drop_last());
        let action = transaction.action();
        if successes.last() {
            (
                transaction.after(OutcomeView::Done { id: tables.working.next_archive_id }),
                performed(tables, action),
            )
        } else {
            (
                transaction.after(OutcomeView::Failed),
                if action is RollBack {
                    performed(tables, action)
                } else {
                    tables
                },
            )
        }
    }
}

/// How many actions it takes to write what a plan says.
pub open spec fn statements(plan: PlanView) -> nat {
    if plan.retired is Some {
        5
    } else {
        3
    }
}

/// The stage after so many successful actions.
spec fn stage_after(plan: PlanView, count: int) -> Stage {
    let left = statements(plan) - count;
    if left >= 5 {
        Stage::Archiving
    } else if left == 4 {
        Stage::Deleting
    } else if left == 3 {
        Stage::Changing
    } else if left == 2 {
        Stage::Appending
    } else if left == 1 {
        Stage::Committing
    } else {
        Stage::Committed
    }
}

/// All of the first actions succeeded.
spec fn undisturbed(plan: PlanView, successes: Seq<bool>) -> bool {
    forall|i: int| 0 <= i < successes.len() && i < statements(plan) ==> #[trigger] successes[i]
}

/// The tables within the transaction, by its stage.
spec fn working_at(plan: PlanView, store: Store, stage: Stage) -> Store {
    let retired = crate::store::after_retiring(store, plan.retired);
    let changed = crate::store::after_change(retired, plan.change);
    match stage {
        Stage::Archiving => store,
        Stage::Deleting => crate::store::after_archiving(store, plan.retired->0),
        Stage::Changing => retired,
        Stage::Appending => changed,
        _ => crate::store::carry_out(store, plan),
    }
}

proof fn lemma_run(plan: PlanView, store: Store, successes: Seq<bool>)
    ensures
        ({
            let (transaction, tables) = run(plan, store, successes);
            let stage = transaction.stage;
            &&& transaction.plan == plan
            &&& transaction.wf()
            &&& undisturbed(plan, successes) ==> stage == stage_after(
                plan,
                successes.len() as int,
            )
            &&& !undisturbed(plan, successes) ==> stage == Stage::RollingBack || stage
                == Stage::RolledBack
            &&& tables.committed == if stage == Stage::Committed {
                crate::store::carry_out(store, plan)
            } else {
                store
            }
            &&& stage == Stage::RolledBack ==> tables.working == store
            &&& stage != Stage::RollingBack && stage != Stage::RolledBack ==> tables.working
                == working_at(plan, store, stage)
            &&& stage != Stage::Archiving && stage != Stage::RollingBack && stage
                != Stage::RolledBack ==> transaction.archive_id == crate::store::recorded(
                store,
                plan,
            ).archive_id
        }),
    decreases successes.len(),
{
    if successes.len() > 0 {
        let front = successes.drop_last();
        lemma_run(plan, store, front);
        if undisturbed(plan, successes) {
            assert forall|i: int|
                0 <= i < front.len() && i < statements(plan) implies #[trigger] front[i] by {
                assert(front[i] == successes[i]);
            }
            if front.len() < statements(plan) {
                assert(successes[successes.len() - 1]);
            }
        } else if undisturbed(plan, front) {
            let i = choose|i: int|
                0 <= i < successes.len() && i < statements(plan) && !#[trigger] successes[i];
            if i < front.len() {
                assert(front[i] == successes[i]);
            }
        }
    }
}

// ---------------------------------------------------------------------------
// Laws
// ---------------------------------------------------------------------------

/// An event is written as a whole or not at all: the tables are those after
/// the event once the transaction was committed, and until then, and after any
/// failure, they are as they were.
pub proof fn law_event_is_written_whole_or_not_at_all(
    plan: PlanView,
    store: Store,
    successes: Seq<bool>,
)
    ensures
        ({
            let (transaction, tables) = run(plan, store, successes);
            &&& transaction.action() == (TableActionView::Finish { written: true })
                ==> tables.committed == crate::store::carry_out(store, plan)
            &&& transaction.action() != (TableActionView::Finish { written: true })
                ==> tables.committed == store
            &&& transaction.action() == (TableActionView::Finish { written: false })
                ==> tables.working == store
        }),
{
    lemma_run(plan, store, successes);
}

/// An event is written exactly if all its statements and the commit succeeded.
pub proof fn law_event_is_written_unless_a_statement_fails(
    plan: PlanView,
    store: Store,
    successes: Seq<bool>,
)
    ensures
        run(plan, store, successes).0.action() == (TableActionView::Finish { written: true })
            <==> successes.len() >= statements(plan) && forall|i: int|
            0 <= i < statements(plan) ==> #[trigger] successes[i],
{
    lemma_run(plan, store, successes);
}

/// A failure ends the transaction: after one more action nothing is left to
/// do, and the event was not written.
pub proof fn law_failure_ends_the_transaction(
    plan: PlanView,
    store: Store,
    successes: Seq<bool>,
    i: int,
)
    requires
        0 <= i < statements(plan),
        i + 1 < successes.len(),
        !successes[i],
    ensures
        run(plan, store, successes).0.action() == (TableActionView::Finish { written: false }),
    decreases successes.len(),
{
    let front = successes.drop_last();
    lemma_run(plan, store, successes);
    lemma_run(plan, store, front);
    assert(front[i] == successes[i]);
    if i + 1 < front.len() {
        law_failure_ends_the_transaction(plan, store, front, i);
    }
}

/// Of an event on given tables: where it is written, one row is added to the
/// history and the archive keeps all its rows; where it fails, all three
/// tables are as they were.
pub proof fn law_failed_event_leaves_the_tables(
    store: Store,
    event: crate::db::EnvelopeView,
    on_disk: Option<Seq<char>>,
    successes: Seq<bool>,
)
    ensures
        ({
            let plan = store.plan(event, on_disk);
            let (transaction, tables) = run(plan, store, successes);
            let after = tables.committed;
            if transaction.action() == (TableActionView::Finish { written: true }) {
                &&& after == crate::store::after_event(store, event, on_disk)
                &&& after.events == store.events.push(crate::store::recorded(store, plan))
                &&& store.archive.is_prefix_of(after.archive)
            } else {
                &&& after.live == store.live
                &&& after.archive == store.archive
                &&& after.events == store.events
            }
        }),
{
    law_event_is_written_whole_or_not_at_all(store.plan(event, on_disk), store, successes);
    crate::store::law_history_is_append_only(store, event, on_disk);
}

/// Actions and outcomes are seen with all that they hold.
pub proof fn law_actions_and_outcomes_tell_all(action: TableAction, outcome: StatementOutcome)
    ensures
        action matches TableAction::Archive(retired) ==> action@ == TableActionView::Archive(
            retired@,
        ),
        action matches TableAction::Delete { id } ==> action@ == (TableActionView::Delete {
            id: id as int,
        }),
        action matches TableAction::Change(change) ==> action@ == TableActionView::Change(change@),
        action matches TableAction::Append { event, archive_id: None } ==> action@
            == TableActionView::Append(RecordedEvent { columns: event@, archive_id: None }),
        action matches TableAction::Append { event, archive_id: Some(id) } ==> action@
            == TableActionView::Append(
            RecordedEvent { columns: event@, archive_id: Some(id as int) },
        ),
        action is Commit <==> action@ is Commit,
        action is RollBack <==> action@ is RollBack,
        action matches TableAction::Finish { written } ==> action@ == (TableActionView::Finish {
            written,
        }),
        outcome matches StatementOutcome::Done { id } ==> outcome@ == (OutcomeView::Done {
            id: id as int,
        }),
        outcome is Failed <==> outcome@ is Failed,
{
}

} // verus!
