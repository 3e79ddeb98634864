//! Migration: a table whose columns no longer serve the entity is rebuilt
//! by copy. Every stored row is read as a partial value, reconciled into a
//! full entity or dropped, and written to the new table.

use crate::column::{
    create_table_sql, create_table_text, names_distinct, names_of, position_of,
    position_of_is_first, SqlColumn, SqlColumnView,
};
use crate::row::{completed_leaves, decode_leaves, fits, leaf_required, leaves_under};
use crate::statement::{insert_sql, insert_text, SqlFailureBehavior};
use crate::value::{clone_values, SqlValue, SqlValueView};
use vstd::prelude::*;

verus! {

/// How a stored row becomes an entity of the new shape. The engine asks
/// nothing of a handler but an answer: the entity, or nothing where the row
/// is to be dropped.
pub trait MigrationHandler {
    /// Reconciles one row. `partial` holds one leaf per expected column, set
    /// where the row gave a value for it; `values` is the row as it was
    /// stored, in the order of the `live` columns.
    fn migrate(
        &self,
        columns: &[SqlColumn],
        partial: Vec<Option<SqlValue>>,
        live: &[SqlColumn],
        values: &Vec<SqlValue>,
    ) -> (r: Option<Vec<SqlValue>>)
        requires
            partial.len() == columns.len(),
    ;
}

/// What the leaves complete into once the unset ones have taken their
/// default: the entity, or nothing where a required leaf is still unset.
pub open spec fn completed_with(
    columns: Seq<SqlColumnView>,
    partial: Seq<Option<SqlValueView>>,
    defaults: Seq<Option<SqlValueView>>,
) -> Option<Seq<SqlValueView>> {
    completed_leaves(columns, filled(partial, defaults))
}

/// The leaves with each unset one replaced by its default, where it has
/// one.
pub open spec fn filled(
    partial: Seq<Option<SqlValueView>>,
    defaults: Seq<Option<SqlValueView>>,
) -> Seq<Option<SqlValueView>> {
    Seq::new(
        partial.len(),
        |i: int|
            if partial[i] is None && i < defaults.len() {
                defaults[i]
            } else {
                partial[i]
            },
    )
}

/// The entity that the leaves complete into: each leaf's value, the null
/// value for an unset leaf; nothing where a required leaf is unset.
pub fn complete_leaves(columns: &[SqlColumn], partial: &Vec<Option<SqlValue>>) -> (r: Option<
    Vec<SqlValue>,
>)
    requires
        partial.len() == columns.len(),
    ensures
        r.deep_view() == completed_leaves(columns.deep_view(), partial.deep_view()),
{
    let ghost cols = columns.deep_view();
    let ghost leaves = partial.deep_view();
    let mut out: Vec<SqlValue> = Vec::new();
    let mut i: usize = 0;
    while i < columns.len()
        invariant
            i <= columns.len(),
            partial.len() == columns.len(),
            cols == columns.deep_view(),
            leaves == partial.deep_view(),
            out.len() == i,
            forall|j: int| 0 <= j < i ==> !(leaf_required(cols[j]) && leaves[j] is None),
            forall|j: int|
                0 <= j < i ==> out.deep_view()[j] == match leaves[j] {
                    Some(v) => v,
                    None => SqlValueView::Null,
                },
        decreases columns.len() - i,
    {
        assert(cols[i as int] == columns[i as int]@);
        assert(leaves[i as int] == partial[i as int].deep_view());
        let ghost before = out.deep_view();
        match &partial[i] {
            Some(v) => {
                let item = v.clone();
                out.push(item);
                assert(out.deep_view() =~= before.push(item@));
            },
            None => {
                if columns[i].is_primary || columns[i].sql_type.is_required() {
                    return None;
                }
                out.push(SqlValue::Null);
                assert(out.deep_view() =~= before.push(SqlValueView::Null));
            },
        }
        i += 1;
    }
    assert(out.deep_view() =~= completed_leaves(cols, leaves)->Some_0);
    Some(out)
}

/// The handler that adds nothing: a row becomes an entity where every
/// required leaf could be read from it, and is dropped where not.
#[derive(Debug)]
pub struct Transpose;

impl MigrationHandler for Transpose {
    fn migrate(
        &self,
        columns: &[SqlColumn],
        partial: Vec<Option<SqlValue>>,
        live: &[SqlColumn],
        values: &Vec<SqlValue>,
    ) -> (r: Option<Vec<SqlValue>>)
        ensures
            r.deep_view() == completed_leaves(columns.deep_view(), partial.deep_view()),
    {
        complete_leaves(columns, &partial)
    }
}

/// The handler that backfills: a leaf that could not be read takes the
/// default given for its column, where one is given.
#[derive(Debug)]
pub struct Backfill {
    pub defaults: Vec<Option<SqlValue>>,
}

impl MigrationHandler for Backfill {
    fn migrate(
        &self,
        columns: &[SqlColumn],
        partial: Vec<Option<SqlValue>>,
        live: &[SqlColumn],
        values: &Vec<SqlValue>,
    ) -> (r: Option<Vec<SqlValue>>)
        ensures
            r.deep_view() == completed_with(
                columns.deep_view(),
                partial.deep_view(),
                self.defaults.deep_view(),
            ),
    {
        let ghost want = filled(partial.deep_view(), self.defaults.deep_view());
        let mut leaves: Vec<Option<SqlValue>> = Vec::new();
        let mut i: usize = 0;
        while i < partial.len()
            invariant
                i <= partial.len(),
                want == filled(partial.deep_view(), self.defaults.deep_view()),
                leaves.deep_view() == want.take(i as int),
            decreases partial.len() - i,
        {
            let ghost before = leaves.deep_view();
            assert(partial.deep_view()[i as int] == partial[i as int].deep_view());
            let leaf = match &partial[i] {
                Some(v) => Some(v.clone()),
                None => {
                    if i < self.defaults.len() {
                        assert(self.defaults.deep_view()[i as int]
                            == self.defaults[i as int].deep_view());
                        match &self.defaults[i] {
                            Some(d) => Some(d.clone()),
                            None => None,
                        }
                    } else {
                        None
                    }
                },
            };
            leaves.push(leaf);
            assert(leaves.deep_view() =~= before.push(leaf.deep_view()));
            assert(leaves.deep_view() =~= want.take(i + 1));
            i += 1;
        }
        assert(want.take(partial.len() as int) =~= want);
        complete_leaves(columns, &leaves)
    }
}

/// Whether `outcome` is an answer of the handler to the stored row: the
/// handler was handed the expected columns, the leaves that the row gives
/// for them, the live columns and the row itself, and gave this back.
pub open spec fn answers<H: MigrationHandler>(
    handler: &H,
    columns: &[SqlColumn],
    live: &[SqlColumn],
    row: &Vec<SqlValue>,
    outcome: Option<Vec<SqlValue>>,
) -> bool {
    exists|partial: Vec<Option<SqlValue>>|
        partial.deep_view() == leaves_under(
            columns.deep_view(),
            live.deep_view(),
            row.deep_view(),
        ) && #[trigger] call_ensures(H::migrate, (handler, columns, partial, live, row), outcome)
}

/// Asks the handler about every stored row, each read permissively in the
/// order of the `live` columns, and hands back its answers in the order of
/// the rows. What a handler answers is its own affair; what it is asked is
/// fixed.
pub fn reconcile_rows<H: MigrationHandler>(
    handler: &H,
    columns: &[SqlColumn],
    live: &[SqlColumn],
    rows: &Vec<Vec<SqlValue>>,
) -> (r: Vec<Option<Vec<SqlValue>>>)
    ensures
        r.len() == rows.len(),
        forall|i: int|
            0 <= i < rows.len() ==> answers(handler, columns, live, &rows[i], #[trigger] r[i]),
{
    let mut outcomes: Vec<Option<Vec<SqlValue>>> = Vec::new();
    let mut i: usize = 0;
    while i < rows.len()
        invariant
            i <= rows.len(),
            outcomes.len() == i,
            forall|j: int|
                0 <= j < i ==> answers(handler, columns, live, &rows[j], #[trigger] outcomes[j]),
        decreases rows.len() - i,
    {
        let partial = decode_leaves(columns, live, &rows[i]);
        assert(partial.deep_view().len() == columns.deep_view().len());
        let ghost handed = partial;
        let outcome = handler.migrate(columns, partial, live, &rows[i]);
        assert(call_ensures(H::migrate, (handler, columns, handed, live, &rows[i as int]), outcome));
        outcomes.push(outcome);
        i += 1;
    }
    outcomes
}

/// The entities among the first `n` answers, in order; a row that was
/// given up gives none.
pub open spec fn kept_upto(outcomes: Seq<Option<Seq<SqlValueView>>>, n: nat) -> Seq<
    Seq<SqlValueView>,
>
    decreases n,
{
    if n == 0 || n > outcomes.len() {
        Seq::empty()
    } else {
        let front = kept_upto(outcomes, (n - 1) as nat);
        match outcomes[n - 1] {
            Some(entity) => front.push(entity),
            None => front,
        }
    }
}

/// The entities among the answers, in order.
pub open spec fn kept(outcomes: Seq<Option<Seq<SqlValueView>>>) -> Seq<Seq<SqlValueView>> {
    kept_upto(outcomes, outcomes.len())
}

/// The entities among the answers of a handler, in order: what it completed
/// is kept, what it gave up is dropped without an error.
pub fn keep_reconciled(outcomes: Vec<Option<Vec<SqlValue>>>) -> (r: Vec<Vec<SqlValue>>)
    ensures
        r.deep_view() == kept(outcomes.deep_view()),
{
    let ghost all = outcomes.deep_view();
    let mut entries: Vec<Vec<SqlValue>> = Vec::new();
    assert(entries.deep_view() =~= Seq::<Seq<SqlValueView>>::empty());
    let mut i: usize = 0;
    while i < outcomes.len()
        invariant
            i <= outcomes.len(),
            all == outcomes.deep_view(),
            entries.deep_view() == kept_upto(all, i as nat),
        decreases outcomes.len() - i,
    {
        let ghost before = entries.deep_view();
        assert(all[i as int] == outcomes[i as int].deep_view());
        match &outcomes[i] {
            Some(entity) => {
                let copy = clone_values(entity);
                entries.push(copy);
                assert(entries.deep_view() =~= before.push(copy.deep_view()));
            },
            None => {},
        }
        i += 1;
    }
    entries
}

/// Migration drops incompatible rows, and only those: a row that the handler
/// gives up leaves what was kept before it unchanged, a row that it
/// completes is kept behind the rows before it; no row is kept twice.
pub proof fn dropped_rows_leave_no_trace(
    outcomes: Seq<Option<Seq<SqlValueView>>>,
    outcome: Option<Seq<SqlValueView>>,
)
    ensures
        kept(outcomes).len() <= outcomes.len(),
        kept(outcomes.push(outcome)) == match outcome {
            Some(entity) => kept(outcomes).push(entity),
            None => kept(outcomes),
        },
{
    kept_count(outcomes, outcomes.len());
    kept_of_prefix(outcomes, outcomes.push(outcome), outcomes.len());
}

proof fn kept_count(outcomes: Seq<Option<Seq<SqlValueView>>>, n: nat)
    requires
        n <= outcomes.len(),
    ensures
        kept_upto(outcomes, n).len() <= n,
    decreases n,
{
    if n > 0 {
        kept_count(outcomes, (n - 1) as nat);
    }
}

proof fn kept_of_prefix(
    front: Seq<Option<Seq<SqlValueView>>>,
    outcomes: Seq<Option<Seq<SqlValueView>>>,
    n: nat,
)
    requires
        front.is_prefix_of(outcomes),
        n <= front.len(),
    ensures
        kept_upto(outcomes, n) == kept_upto(front, n),
    decreases n,
{
    if n > 0 {
        kept_of_prefix(front, outcomes, (n - 1) as nat);
        assert(front[n - 1] == outcomes[n - 1]);
    }
}

/// Where every answer is an entity, every row is kept, in order: nothing is
/// lost and nothing is doubled.
pub proof fn complete_answers_are_all_kept(outcomes: Seq<Option<Seq<SqlValueView>>>)
    requires
        forall|i: int| 0 <= i < outcomes.len() ==> outcomes[i] is Some,
    ensures
        kept(outcomes) == outcomes.map_values(|o: Option<Seq<SqlValueView>>| o->Some_0),
{
    all_kept_upto(outcomes, outcomes.len());
    assert(outcomes.map_values(|o: Option<Seq<SqlValueView>>| o->Some_0).take(
        outcomes.len() as int,
    ) =~= outcomes.map_values(|o: Option<Seq<SqlValueView>>| o->Some_0));
}

proof fn all_kept_upto(outcomes: Seq<Option<Seq<SqlValueView>>>, n: nat)
    requires
        n <= outcomes.len(),
        forall|i: int| 0 <= i < outcomes.len() ==> outcomes[i] is Some,
    ensures
        kept_upto(outcomes, n) == outcomes.map_values(
            |o: Option<Seq<SqlValueView>>| o->Some_0,
        ).take(n as int),
    decreases n,
{
    let mapped = outcomes.map_values(|o: Option<Seq<SqlValueView>>| o->Some_0);
    if n == 0 {
        assert(mapped.take(0) =~= Seq::<Seq<SqlValueView>>::empty());
    } else {
        all_kept_upto(outcomes, (n - 1) as nat);
        assert(mapped.take(n - 1).push(mapped[n - 1]) =~= mapped.take(n as int));
    }
}

/// Migration preserves data. Where the expected columns are the columns the
/// table has and one new column behind them, and the handler backfills the
/// new column, and no other, with a constant, every stored row that fits its table, with a
/// value in each required column, is kept: the values it had, in order,
/// then the constant.
pub proof fn backfill_preserves_rows(
    handler: Backfill,
    live: Seq<SqlColumnView>,
    added: SqlColumnView,
    constant: SqlValueView,
    values: Seq<SqlValueView>,
)
    requires
        names_distinct(live.push(added)),
        fits(live, values),
        forall|i: int| 0 <= i < live.len() ==> !(values[i] is Null && leaf_required(live[i])),
        handler.defaults.deep_view().len() == live.len() + 1,
        forall|i: int| 0 <= i < live.len() ==> handler.defaults.deep_view()[i] is None,
        handler.defaults.deep_view()[live.len() as int] == Some(constant),
    ensures
        completed_with(
            live.push(added),
            leaves_under(live.push(added), live, values),
            handler.defaults.deep_view(),
        ) == Some(values.push(constant)),
{
    let columns = live.push(added);
    let partial = leaves_under(columns, live, values);
    let leaves = filled(partial, handler.defaults.deep_view());
    assert forall|i: int| 0 <= i < live.len() implies partial[i] == (if values[i] is Null {
        None
    } else {
        Some(values[i])
    }) by {
        position_of_is_first(live, columns[i].name);
        assert(live[i].name == columns[i].name);
        assert(forall|j: int| 0 <= j < live.len() ==> live[j] == columns[j]);
        assert(position_of(live, columns[i].name) == Some(i));
    }
    assert(partial[live.len() as int] is None) by {
        position_of_is_first(live, added.name);
        assert(forall|j: int| 0 <= j < live.len() ==> live[j] == columns[j]);
        assert(columns[live.len() as int] == added);
    }
    assert(leaves[live.len() as int] == Some(constant));
    assert forall|i: int| 0 <= i < columns.len() implies !(leaf_required(columns[i])
        && leaves[i] is None) by {
        if i < live.len() {
            assert(columns[i] == live[i]);
        }
    }
    assert forall|i: int| 0 <= i < columns.len() implies (match leaves[i] {
        Some(v) => v,
        None => SqlValueView::Null,
    }) == values.push(constant)[i] by {
        if i < live.len() {
            assert(partial[i] == (if values[i] is Null {
                None
            } else {
                Some(values[i])
            }));
        }
    }
    assert(completed_leaves(columns, leaves)->Some_0 =~= values.push(constant));
}

/// How far a migration has come.
#[derive(Debug, Clone, Copy, PartialEq, Eq, Structural)]
pub enum MigrationStage {
    /// Nothing has been done.
    Start,
    /// The temporary table is being created.
    Creating,
    /// The stored rows are being read.
    Reading,
    /// The rows that were read are with the handler.
    Reconciling,
    /// The reconciled rows are being written to the temporary table.
    Inserting,
    /// The table is being dropped.
    Dropping,
    /// The temporary table is being given the table's name.
    Renaming,
    /// The table has been rebuilt.
    Done,
    /// A statement failed, or an answer came that was not asked for. What
    /// had been done stays done: the temporary table may be left behind.
    Aborted,
}

/// What the database answered to the last action.
#[derive(Debug)]
pub enum MigrationEvent {
    /// Nothing yet: the migration is to begin.
    Begin,
    /// The statement ran.
    Executed,
    /// The rows that the query gave, each in the order of the table's
    /// columns.
    Rows(Vec<Vec<SqlValue>>),
    /// The handler's answers, in the order of the rows.
    Reconciled(Vec<Option<Vec<SqlValue>>>),
    /// The statement failed.
    Failed,
}

/// What is to be done next.
#[derive(Debug)]
pub enum MigrationAction {
    /// Run a statement that has no parameters, and answer `Executed`.
    Execute(String),
    /// Run a query, and answer with all of its rows.
    Query(String),
    /// Ask the handler about every row, as `reconcile_rows` does, and answer
    /// with what it says.
    Reconcile(Vec<Vec<SqlValue>>),
    /// Run the statement once for each row, with the row's values as its
    /// parameters, and answer `Executed`.
    Insert { sql: String, rows: Vec<Vec<SqlValue>> },
    /// Nothing: the migration is complete.
    Finish,
    /// Nothing: the migration has failed, and the error that failed it is
    /// the caller's to report.
    Abort,
}

/// The mathematical content of a [`MigrationAction`].
pub enum ActionView {
    Execute(Seq<char>),
    Query(Seq<char>),
    Reconcile(Seq<Seq<SqlValueView>>),
    Insert { sql: Seq<char>, rows: Seq<Seq<SqlValueView>> },
    Finish,
    Abort,
}

impl View for MigrationAction {
    type V = ActionView;

    open spec fn view(&self) -> ActionView {
        match self {
            MigrationAction::Execute(sql) => ActionView::Execute(sql@),
            MigrationAction::Query(sql) => ActionView::Query(sql@),
            MigrationAction::Reconcile(rows) => ActionView::Reconcile(rows.deep_view()),
            MigrationAction::Insert { sql, rows } => ActionView::Insert {
                sql: sql@,
                rows: rows.deep_view(),
            },
            MigrationAction::Finish => ActionView::Finish,
            MigrationAction::Abort => ActionView::Abort,
        }
    }
}

/// The migration of one table: how far it has come, and the columns the
/// table should have.
pub struct Migration {
    pub stage: MigrationStage,
    pub table: &'static str,
    pub columns: Vec<SqlColumn>,
}

/// The stage that follows on an answer: the next one where the answer is
/// the one that was asked for, `Aborted` in every other case.
pub open spec fn stage_after(stage: MigrationStage, event: MigrationEvent) -> MigrationStage {
    match (stage, event) {
        (MigrationStage::Start, MigrationEvent::Begin) => MigrationStage::Creating,
        (MigrationStage::Creating, MigrationEvent::Executed) => MigrationStage::Reading,
        (MigrationStage::Reading, MigrationEvent::Rows(_)) => MigrationStage::Reconciling,
        (MigrationStage::Reconciling, MigrationEvent::Reconciled(_)) => MigrationStage::Inserting,
        (MigrationStage::Inserting, MigrationEvent::Executed) => MigrationStage::Dropping,
        (MigrationStage::Dropping, MigrationEvent::Executed) => MigrationStage::Renaming,
        (MigrationStage::Renaming, MigrationEvent::Executed) => MigrationStage::Done,
        _ => MigrationStage::Aborted,
    }
}

impl Migration {
    /// What is to be done on entering a stage, given the answer that led
    /// there: create the temporary table with the expected columns; read
    /// every row of the table; have the rows reconciled; insert the
    /// entities among the answers, passing over those that violate a
    /// constraint; drop the table; rename the temporary table.
    pub open spec fn action_on(self, stage: MigrationStage, event: MigrationEvent) -> ActionView {
        match stage {
            MigrationStage::Start => ActionView::Abort,
            MigrationStage::Creating => ActionView::Execute(
                create_table_text("CREATE TABLE temporary"@, self.columns.deep_view()),
            ),
            MigrationStage::Reading => ActionView::Query("SELECT * FROM "@ + self.table@),
            MigrationStage::Reconciling => ActionView::Reconcile(
                match event {
                    MigrationEvent::Rows(rows) => rows.deep_view(),
                    _ => Seq::empty(),
                },
            ),
            MigrationStage::Inserting => ActionView::Insert {
                sql: insert_text(
                    SqlFailureBehavior::Ignore,
                    "temporary"@,
                    names_of(self.columns.deep_view()),
                    false,
                ),
                rows: match event {
                    MigrationEvent::Reconciled(outcomes) => kept(outcomes.deep_view()),
                    _ => Seq::empty(),
                },
            },
            MigrationStage::Dropping => ActionView::Execute("DROP TABLE "@ + self.table@),
            MigrationStage::Renaming => ActionView::Execute(
                "ALTER TABLE temporary RENAME TO "@ + self.table@,
            ),
            MigrationStage::Done => ActionView::Finish,
            MigrationStage::Aborted => ActionView::Abort,
        }
    }

    /// A migration of `table` to the expected `columns`, with nothing done
    /// yet.
    pub fn new(table: &'static str, columns: Vec<SqlColumn>) -> (r: Self)
        ensures
            r.stage == MigrationStage::Start,
            r.table == table,
            r.columns == columns,
    {
        Migration { stage: MigrationStage::Start, table, columns }
    }

    /// Takes the answer to the last action and says what to do next. The
    /// stages follow each other in one order only; a failed statement, or an
    /// answer that was not asked for, aborts the migration for good.
    pub fn step(&mut self, event: MigrationEvent) -> (action: MigrationAction)
        ensures
            final(self).stage == stage_after(old(self).stage, event),
            final(self).table == old(self).table,
            final(self).columns == old(self).columns,
            action@ == old(self).action_on(final(self).stage, event),
    {
        let next = match (self.stage, &event) {
            (MigrationStage::Start, MigrationEvent::Begin) => MigrationStage::Creating,
            (MigrationStage::Creating, MigrationEvent::Executed) => MigrationStage::Reading,
            (MigrationStage::Reading, MigrationEvent::Rows(_)) => MigrationStage::Reconciling,
            (MigrationStage::Reconciling, MigrationEvent::Reconciled(_)) => MigrationStage::Inserting,
            (MigrationStage::Inserting, MigrationEvent::Executed) => MigrationStage::Dropping,
            (MigrationStage::Dropping, MigrationEvent::Executed) => MigrationStage::Renaming,
            (MigrationStage::Renaming, MigrationEvent::Executed) => MigrationStage::Done,
            _ => MigrationStage::Aborted,
        };
        self.stage = next;
        match (next, event) {
            (MigrationStage::Creating, _) => MigrationAction::Execute(
                create_table_sql("CREATE TABLE temporary", self.columns.as_slice()),
            ),
            (MigrationStage::Reading, _) => {
                let mut sql = String::new();
                sql.push_str("SELECT * FROM ");
                sql.push_str(self.table);
                assert(sql@ =~= "SELECT * FROM "@ + self.table@);
                MigrationAction::Query(sql)
            },
            (MigrationStage::Reconciling, MigrationEvent::Rows(rows)) => MigrationAction::Reconcile(
                rows,
            ),
            (MigrationStage::Inserting, MigrationEvent::Reconciled(outcomes)) => {
                let sql = insert_sql(
                    SqlFailureBehavior::Ignore,
                    "temporary",
                    self.columns.as_slice(),
                    false,
                );
                MigrationAction::Insert { sql, rows: keep_reconciled(outcomes) }
            },
            (MigrationStage::Dropping, _) => {
                let mut sql = String::new();
                sql.push_str("DROP TABLE ");
                sql.push_str(self.table);
                assert(sql@ =~= "DROP TABLE "@ + self.table@);
                MigrationAction::Execute(sql)
            },
            (MigrationStage::Renaming, _) => {
                let mut sql = String::new();
                sql.push_str("ALTER TABLE temporary RENAME TO ");
                sql.push_str(self.table);
                assert(sql@ =~= "ALTER TABLE temporary RENAME TO "@ + self.table@);
                MigrationAction::Execute(sql)
            },
            (MigrationStage::Done, _) => MigrationAction::Finish,
            _ => MigrationAction::Abort,
        }
    }
}

/// A migration only moves forward: from no stage does an answer lead back
/// to an earlier one, the two final stages are left by no answer, and the
/// table is only dropped after the reconciled rows have been written.
pub proof fn stages_only_advance(stage: MigrationStage, event: MigrationEvent)
    ensures
        stage == MigrationStage::Done || stage == MigrationStage::Aborted ==> stage_after(
            stage,
            event,
        ) == MigrationStage::Aborted,
        event is Failed ==> stage_after(stage, event) == MigrationStage::Aborted,
        stage_after(stage, event) == MigrationStage::Inserting ==> stage
            == MigrationStage::Reconciling,
        stage_after(stage, event) == MigrationStage::Dropping ==> stage
            == MigrationStage::Inserting,
        stage_after(stage, event) == MigrationStage::Renaming ==> stage
            == MigrationStage::Dropping,
        stage_after(stage, event) == MigrationStage::Done ==> stage == MigrationStage::Renaming,
{
}

} // verus!
