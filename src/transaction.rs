use vstd::prelude::*;
use crate::value::SqlValue;
use crate::column_path::ColumnId;
use crate::sql::{
    Column, Database, Insert, SQLBuilder, SQLOperation, arena_wf, node_wf, operation_wf, insert_wf,
    render_operation, valid_column_id, operation_is_wf, params_view,
};

verus! {

/// The position of a step in its script.
#[derive(Debug, Clone, Copy, PartialEq, Eq, Structural)]
pub struct TransactionStepId(pub usize);

/// Why a transaction script could not run.
#[derive(Debug, PartialEq)]
pub enum DatabaseError {
    /// The script has no step whose result could be returned.
    Transaction(String),
    /// A template step refers to a step, row or column that no executed step produced.
    UnresolvedReference,
    /// The database refused a statement.
    Delegate(String),
}

/// The rows of each executed step, in execution order.
#[derive(Debug, PartialEq)]
pub struct TransactionContext {
    pub results: Vec<Vec<Vec<SqlValue>>>,
}

/// A value of an insert that may come from an earlier step: a node of the arena, or the
/// value at a column of the earlier step's row.
#[derive(Debug, Clone, Copy, PartialEq, Eq, Structural)]
pub enum ProxyColumn {
    Concrete(usize),
    Template { col_index: usize, step_id: TransactionStepId },
}

/// An insert that yields one row for each row of an earlier step.
#[derive(Debug, PartialEq)]
pub struct TemplateInsert {
    pub table_id: usize,
    pub column_ids: Vec<ColumnId>,
    pub values: Vec<ProxyColumn>,
    pub returning: Vec<usize>,
}

#[derive(Debug, PartialEq)]
pub enum TemplateSQLOperation {
    Insert(TemplateInsert),
}

/// A step that is ready to run.
#[derive(Debug, PartialEq)]
pub struct ConcreteTransactionStep {
    pub operation: SQLOperation,
}

/// A step that becomes concrete once the step it depends on has run.
#[derive(Debug, PartialEq)]
pub struct TemplateTransactionStep {
    pub operation: TemplateSQLOperation,
    pub prev_step_id: TransactionStepId,
}

#[derive(Debug, PartialEq)]
pub enum TransactionStep {
    Concrete(ConcreteTransactionStep),
    Template(TemplateTransactionStep),
}

/// How a request's transaction ends.
#[derive(Debug, Clone, Copy, PartialEq, Eq, Structural)]
pub enum FinalizeAction {
    Commit,
    Rollback,
}

/// Guards a request's transaction so that it is committed or rolled back exactly once.
#[derive(Debug, PartialEq)]
pub struct TransactionHolder {
    finalized: bool,
}

impl TransactionHolder {
    pub closed spec fn is_finalized(&self) -> bool {
        self.finalized
    }

    pub fn new() -> (r: TransactionHolder)
        ensures
            !r.is_finalized(),
    {
        TransactionHolder { finalized: false }
    }

    /// The action that ends the transaction: commit after success, roll back after a
    /// failure; only the first call acts, later ones do nothing.
    pub fn finalize(&mut self, success: bool) -> (r: Option<FinalizeAction>)
        ensures
            final(self).is_finalized(),
            !old(self).is_finalized() ==> r == Some(if success { FinalizeAction::Commit } else { FinalizeAction::Rollback }),
            old(self).is_finalized() ==> r is None,
    {
        if self.finalized {
            None
        } else {
            self.finalized = true;
            Some(if success { FinalizeAction::Commit } else { FinalizeAction::Rollback })
        }
    }
}

/// SQL operations run in order in one database transaction.
#[derive(Debug, PartialEq)]
pub struct TransactionScript {
    pub steps: Vec<TransactionStep>,
}

impl TransactionContext {
    pub fn new() -> (r: TransactionContext)
        ensures
            r.results@.len() == 0,
    {
        TransactionContext { results: Vec::new() }
    }

    /// The value at a column of a row of a step's result.
    pub fn resolve_value(&self, step_id: TransactionStepId, row: usize, col: usize) -> (r: SqlValue)
        requires
            step_id.0 < self.results@.len(),
            row < self.results@[step_id.0 as int]@.len(),
            col < self.results@[step_id.0 as int]@[row as int]@.len(),
        ensures
            r == self.results@[step_id.0 as int]@[row as int]@[col as int],
    {
        self.results[step_id.0][row][col].copy()
    }

    /// The number of rows of a step's result.
    pub fn row_count(&self, step_id: TransactionStepId) -> (r: usize)
        requires
            step_id.0 < self.results@.len(),
        ensures
            r == self.results@[step_id.0 as int]@.len(),
    {
        self.results[step_id.0].len()
    }

    /// Records the rows of the step that just ran.
    pub fn push_result(&mut self, rows: Vec<Vec<SqlValue>>)
        ensures
            final(self).results@ == old(self).results@.push(rows),
    {
        self.results.push(rows);
    }

    /// The result of the script: the rows of its last step, or an error when no step ran.
    pub fn finish(self) -> (r: Result<Vec<Vec<SqlValue>>, DatabaseError>)
        ensures
            self.results@.len() == 0 <==> r is Err,
            r matches Err(e) ==> e is Transaction,
            r matches Ok(rows) ==> rows == self.results@.last(),
    {
        let mut results = self.results;
        match results.pop() {
            Some(rows) => Ok(rows),
            None => Err(DatabaseError::Transaction(String::from_str("the transaction script has no steps"))),
        }
    }
}

/// A value of the template can be resolved for row `r` of the earlier step.
pub open spec fn proxy_resolvable(ctx: TransactionContext, p: ProxyColumn, r: int) -> bool {
    match p {
        ProxyColumn::Concrete(_) => true,
        ProxyColumn::Template { col_index, step_id } => {
            &&& step_id.0 < ctx.results@.len()
            &&& r < ctx.results@[step_id.0 as int]@.len()
            &&& col_index < ctx.results@[step_id.0 as int]@[r]@.len()
        },
    }
}

/// The step that a template depends on has run, and every value it refers to exists for
/// each of that step's rows.
pub open spec fn template_resolvable(ctx: TransactionContext, t: TemplateTransactionStep) -> bool {
    let TemplateSQLOperation::Insert(ins) = t.operation;
    &&& t.prev_step_id.0 < ctx.results@.len()
    &&& forall|r: int, j: int|
        0 <= r < ctx.results@[t.prev_step_id.0 as int]@.len() && 0 <= j < ins.values@.len()
            ==> #[trigger] proxy_resolvable(ctx, ins.values@[j], r)
}

pub open spec fn template_wf(t: TemplateTransactionStep, bound: int, db: Database) -> bool {
    let TemplateSQLOperation::Insert(ins) = t.operation;
    &&& ins.table_id < db.tables@.len()
    &&& forall|k: int| 0 <= k < ins.column_ids@.len() ==> valid_column_id(db, #[trigger] ins.column_ids@[k])
    &&& forall|k: int| 0 <= k < ins.values@.len() ==> (#[trigger] ins.values@[k] matches ProxyColumn::Concrete(c) ==> c < bound)
    &&& forall|k: int| 0 <= k < ins.returning@.len() ==> #[trigger] ins.returning@[k] < bound
}

/// Row `rows` of a resolved insert takes its values from row `r` of the earlier step: a
/// concrete value stays the same node, a template value becomes a parameter holding the
/// earlier step's value.
pub open spec fn row_resolved(arena: Seq<Column>, ctx: TransactionContext, values: Seq<ProxyColumn>, row: Seq<usize>, r: int) -> bool {
    &&& row.len() == values.len()
    &&& forall|j: int| 0 <= j < values.len() ==> match #[trigger] values[j] {
        ProxyColumn::Concrete(c) => row[j] == c,
        ProxyColumn::Template { col_index, step_id } => {
            &&& row[j] < arena.len()
            &&& arena[row[j] as int] == Column::Param(ctx.results@[step_id.0 as int]@[r]@[col_index as int])
        },
    }
}

/// `steps` is the resolution of `t`: nothing when the earlier step returned no rows, else
/// one insert with one row for each of its rows.
pub open spec fn resolved_as(arena: Seq<Column>, ctx: TransactionContext, t: TemplateTransactionStep, steps: Seq<ConcreteTransactionStep>) -> bool {
    let TemplateSQLOperation::Insert(ins) = t.operation;
    let count = ctx.results@[t.prev_step_id.0 as int]@.len();
    if count == 0 {
        steps.len() == 0
    } else {
        &&& steps.len() == 1
        &&& steps[0].operation matches SQLOperation::Insert(out)
        &&& out.table_id == ins.table_id
        &&& out.column_ids@ == ins.column_ids@
        &&& out.returning@ == ins.returning@
        &&& out.rows@.len() == count
        &&& forall|r: int| 0 <= r < count ==> row_resolved(arena, ctx, ins.values@, #[trigger] out.rows@[r]@, r)
    }
}

fn copy_ids(v: &Vec<ColumnId>) -> (r: Vec<ColumnId>)
    ensures
        r@ == v@,
{
    let mut out: Vec<ColumnId> = Vec::new();
    let mut i: usize = 0;
    while i < v.len()
        invariant
            i <= v@.len(),
            out@ == v@.subrange(0, i as int),
        decreases v.len() - i,
    {
        out.push(v[i]);
        i = i + 1;
        assert(out@ =~= v@.subrange(0, i as int));
    }
    assert(v@.subrange(0, v@.len() as int) =~= v@);
    out
}

fn copy_indices(v: &Vec<usize>) -> (r: Vec<usize>)
    ensures
        r@ == v@,
{
    let mut out: Vec<usize> = Vec::new();
    let mut i: usize = 0;
    while i < v.len()
        invariant
            i <= v@.len(),
            out@ == v@.subrange(0, i as int),
        decreases v.len() - i,
    {
        out.push(v[i]);
        i = i + 1;
        assert(out@ =~= v@.subrange(0, i as int));
    }
    assert(v@.subrange(0, v@.len() as int) =~= v@);
    out
}

/// Whether every value of the template exists in row `r` of the steps it refers to.
fn row_resolvable(ctx: &TransactionContext, values: &Vec<ProxyColumn>, r: usize) -> (ok: bool)
    ensures
        ok == forall|j: int| 0 <= j < values@.len() ==> proxy_resolvable(*ctx, #[trigger] values@[j], r as int),
{
    let mut j: usize = 0;
    while j < values.len()
        invariant
            j <= values@.len(),
            forall|k: int| 0 <= k < j ==> proxy_resolvable(*ctx, #[trigger] values@[k], r as int),
        decreases values.len() - j,
    {
        match values[j] {
            ProxyColumn::Concrete(_) => {},
            ProxyColumn::Template { col_index, step_id } => {
                if step_id.0 >= ctx.results.len() || r >= ctx.results[step_id.0].len()
                    || col_index >= ctx.results[step_id.0][r].len() {
                    return false;
                }
            },
        }
        j = j + 1;
    }
    true
}

impl ConcreteTransactionStep {
    pub fn new(operation: SQLOperation) -> (r: ConcreteTransactionStep)
        ensures
            r.operation == operation,
    {
        ConcreteTransactionStep { operation }
    }
}

impl TemplateTransactionStep {
    /// Resolves the template against the results of the steps that ran: each template
    /// value becomes a parameter node appended to the arena.
    pub fn resolve(&self, transaction_context: &TransactionContext, arena: &mut Vec<Column>, database: &Database)
        -> (r: Result<Vec<ConcreteTransactionStep>, DatabaseError>)
        requires
            arena_wf(old(arena)@, *database),
            template_wf(*self, old(arena)@.len() as int, *database),
        ensures
            arena_wf(final(arena)@, *database),
            final(arena)@.len() >= old(arena)@.len(),
            final(arena)@.subrange(0, old(arena)@.len() as int) == old(arena)@,
            r is Ok <==> template_resolvable(*transaction_context, *self),
            r matches Err(e) ==> e is UnresolvedReference,
            r matches Ok(steps) ==> resolved_as(final(arena)@, *transaction_context, *self, steps@),
            r matches Ok(steps) ==> forall|k: int| 0 <= k < steps@.len()
                ==> operation_wf(#[trigger] steps@[k].operation, final(arena)@.len() as int, *database),
    {
        let ins = match &self.operation {
            TemplateSQLOperation::Insert(i) => i,
        };
        assert(*ins == self.operation->Insert_0);
        let ghost start = arena@;
        assert(arena@.subrange(0, start.len() as int) =~= start);
        if self.prev_step_id.0 >= transaction_context.results.len() {
            return Err(DatabaseError::UnresolvedReference);
        }
        let count = transaction_context.results[self.prev_step_id.0].len();
        let mut r: usize = 0;
        while r < count
            invariant
                r <= count,
                arena@ == start,
                arena_wf(start, *database),
                *ins == self.operation->Insert_0,
                self.prev_step_id.0 < transaction_context.results@.len(),
                count == transaction_context.results@[self.prev_step_id.0 as int]@.len(),
                forall|q: int, j: int| 0 <= q < r && 0 <= j < ins.values@.len()
                    ==> #[trigger] proxy_resolvable(*transaction_context, ins.values@[j], q),
            decreases count - r,
        {
            if !row_resolvable(transaction_context, &ins.values, r) {
                proof {
                    let j = choose|j: int| 0 <= j < ins.values@.len() && !proxy_resolvable(*transaction_context, #[trigger] ins.values@[j], r as int);
                    assert(!proxy_resolvable(*transaction_context, ins.values@[j], r as int));
                    if template_resolvable(*transaction_context, *self) {
                        assert(proxy_resolvable(*transaction_context, (self.operation->Insert_0).values@[j], r as int));
                    }
                }
                return Err(DatabaseError::UnresolvedReference);
            }
            r = r + 1;
        }
        assert(template_resolvable(*transaction_context, *self));
        if count == 0 {
            return Ok(Vec::new());
        }
        let mut rows: Vec<Vec<usize>> = Vec::new();
        let mut r: usize = 0;
        while r < count
            invariant
                r <= count,
                *ins == self.operation->Insert_0,
                self.prev_step_id.0 < transaction_context.results@.len(),
                count == transaction_context.results@[self.prev_step_id.0 as int]@.len(),
                forall|q: int, j: int| 0 <= q < count && 0 <= j < ins.values@.len()
                    ==> #[trigger] proxy_resolvable(*transaction_context, ins.values@[j], q),
                template_wf(*self, start.len() as int, *database),
                arena_wf(arena@, *database),
                arena@.len() >= start.len(),
                arena@.subrange(0, start.len() as int) == start,
                rows@.len() == r,
                forall|q: int| 0 <= q < r ==> row_resolved(arena@, *transaction_context, ins.values@, #[trigger] rows@[q]@, q),
                forall|q: int, j: int| 0 <= q < r && 0 <= j < rows@[q]@.len() ==> #[trigger] rows@[q]@[j] < arena@.len(),
            decreases count - r,
        {
            let mut row: Vec<usize> = Vec::new();
            let mut j: usize = 0;
            let ghost before_row = arena@;
            while j < ins.values.len()
                invariant
                    j <= ins.values@.len(),
                    r < count,
                    *ins == self.operation->Insert_0,
                    self.prev_step_id.0 < transaction_context.results@.len(),
                    count == transaction_context.results@[self.prev_step_id.0 as int]@.len(),
                    forall|q: int, j: int| 0 <= q < count && 0 <= j < ins.values@.len()
                        ==> #[trigger] proxy_resolvable(*transaction_context, ins.values@[j], q),
                    template_wf(*self, start.len() as int, *database),
                    arena_wf(arena@, *database),
                    arena@.len() >= before_row.len(),
                    before_row.len() >= start.len(),
                    arena@.subrange(0, before_row.len() as int) == before_row,
                    arena@.subrange(0, start.len() as int) == start,
                    rows@.len() == r,
                    forall|q: int| 0 <= q < r ==> row_resolved(before_row, *transaction_context, ins.values@, #[trigger] rows@[q]@, q),
                    forall|q: int, j: int| 0 <= q < r && 0 <= j < rows@[q]@.len() ==> #[trigger] rows@[q]@[j] < before_row.len(),
                    row@.len() == j,
                    forall|k: int| 0 <= k < j ==> #[trigger] row@[k] < arena@.len(),
                    forall|k: int| 0 <= k < j ==> match #[trigger] ins.values@[k] {
                        ProxyColumn::Concrete(c) => row@[k] == c,
                        ProxyColumn::Template { col_index, step_id } => {
                            &&& row@[k] < arena@.len()
                            &&& arena@[row@[k] as int] == Column::Param(transaction_context.results@[step_id.0 as int]@[r as int]@[col_index as int])
                        },
                    },
                decreases ins.values.len() - j,
            {
                assert(proxy_resolvable(*transaction_context, ins.values@[j as int], r as int));
                assert(template_wf(*self, start.len() as int, *database));
                let ghost prev = arena@;
                match ins.values[j] {
                    ProxyColumn::Concrete(c) => {
                        proof { lemma_template_concrete_below(*self, start.len() as int, *database, j as int); }
                        row.push(c);
                    },
                    ProxyColumn::Template { col_index, step_id } => {
                        let v = transaction_context.resolve_value(step_id, r, col_index);
                        arena.push(Column::Param(v));
                        proof {
                            assert forall|i: int| 0 <= i < arena@.len() implies node_wf(#[trigger] arena@[i], i, *database) by {
                                if i < prev.len() {
                                    assert(arena@[i] == prev[i]);
                                    assert(node_wf(prev[i], i, *database));
                                }
                            }
                            assert(arena@.subrange(0, before_row.len() as int) =~= before_row) by {
                                assert(prev.subrange(0, before_row.len() as int) == before_row);
                            }
                            assert(arena@.subrange(0, start.len() as int) =~= start) by {
                                assert(prev.subrange(0, start.len() as int) == start);
                            }
                        }
                        row.push(arena.len() - 1);
                    },
                }
                proof {
                    assert forall|k: int| 0 <= k < j + 1 implies match #[trigger] ins.values@[k] {
                        ProxyColumn::Concrete(c) => row@[k] == c,
                        ProxyColumn::Template { col_index, step_id } => {
                            &&& row@[k] < arena@.len()
                            &&& arena@[row@[k] as int] == Column::Param(transaction_context.results@[step_id.0 as int]@[r as int]@[col_index as int])
                        },
                    } by {
                        if k < j {
                            if let ProxyColumn::Template { col_index, step_id } = ins.values@[k] {
                                assert(row@[k] < prev.len());
                                assert(arena@[row@[k] as int] == prev[row@[k] as int]);
                            }
                        }
                    }
                }
                j = j + 1;
            }
            let ghost row_view = row@;
            rows.push(row);
            proof {
                assert(rows@[r as int]@ == row_view);
                assert(row_resolved(arena@, *transaction_context, ins.values@, row_view, r as int));
                assert forall|q: int| 0 <= q < r + 1 implies row_resolved(arena@, *transaction_context, ins.values@, #[trigger] rows@[q]@, q) by {
                    if q < r {
                        lemma_row_resolved_grows(before_row, arena@, *transaction_context, ins.values@, rows@[q]@, q);
                    }
                }
            }
            r = r + 1;
        }
        let out = Insert {
            table_id: ins.table_id,
            column_ids: copy_ids(&ins.column_ids),
            rows,
            returning: copy_indices(&ins.returning),
        };
        let mut steps: Vec<ConcreteTransactionStep> = Vec::new();
        steps.push(ConcreteTransactionStep::new(SQLOperation::Insert(out)));
        proof {
            assert(insert_wf(out, arena@.len() as int, *database));
        }
        Ok(steps)
    }
}

proof fn lemma_template_concrete_below(t: TemplateTransactionStep, bound: int, db: Database, k: int)
    requires
        template_wf(t, bound, db),
        0 <= k < (t.operation->Insert_0).values@.len(),
    ensures
        (t.operation->Insert_0).values@[k] matches ProxyColumn::Concrete(c) ==> c < bound,
{
    let TemplateSQLOperation::Insert(ins) = t.operation;
    assert(ins.values@[k] matches ProxyColumn::Concrete(c) ==> c < bound);
}

/// A resolved row stays resolved when the arena grows at its end.
proof fn lemma_row_resolved_grows(a1: Seq<Column>, a2: Seq<Column>, ctx: TransactionContext, values: Seq<ProxyColumn>, row: Seq<usize>, r: int)
    requires
        row_resolved(a1, ctx, values, row, r),
        a2.len() >= a1.len(),
        a2.subrange(0, a1.len() as int) == a1,
    ensures
        row_resolved(a2, ctx, values, row, r),
{
    assert forall|j: int| 0 <= j < values.len() implies match #[trigger] values[j] {
        ProxyColumn::Concrete(c) => row[j] == c,
        ProxyColumn::Template { col_index, step_id } => {
            &&& row[j] < a2.len()
            &&& a2[row[j] as int] == Column::Param(ctx.results@[step_id.0 as int]@[r]@[col_index as int])
        },
    } by {
        if let ProxyColumn::Template { col_index, step_id } = values[j] {
            assert(a2.subrange(0, a1.len() as int)[row[j] as int] == a2[row[j] as int]);
        }
    }
}

/// Every step of the script refers only to the schema and to nodes below `bound`.
pub open spec fn script_wf(script: TransactionScript, bound: int, db: Database) -> bool {
    forall|k: int| 0 <= k < script.steps@.len() ==> match #[trigger] script.steps@[k] {
        TransactionStep::Concrete(c) => operation_wf(c.operation, bound, db),
        TransactionStep::Template(t) => template_wf(t, bound, db),
    }
}

/// The statements are the renderings of the steps, one for one.
pub open spec fn renders_steps(arena: Seq<Column>, db: Database, steps: Seq<ConcreteTransactionStep>, stmts: Seq<SQLBuilder>) -> bool {
    &&& stmts.len() == steps.len()
    &&& forall|k: int| 0 <= k < stmts.len() ==> {
        &&& (#[trigger] stmts[k]).sql@ == render_operation(arena, db, steps[k].operation).0
        &&& params_view(stmts[k].params@) == render_operation(arena, db, steps[k].operation).1
    }
}

/// A template step placed before the step it reads from cannot be resolved.
pub proof fn lemma_template_needs_its_source(ctx: TransactionContext, t: TemplateTransactionStep)
    requires
        t.prev_step_id.0 >= ctx.results@.len(),
    ensures
        !template_resolvable(ctx, t),
{
}

fn template_is_wf(t: &TemplateTransactionStep, bound: usize, database: &Database) -> (r: bool)
    ensures
        r == template_wf(*t, bound as int, *database),
{
    let ins = match &t.operation {
        TemplateSQLOperation::Insert(i) => i,
    };
    if ins.table_id >= database.tables.len() {
        return false;
    }
    let mut k: usize = 0;
    while k < ins.column_ids.len()
        invariant
            *ins == t.operation->Insert_0,
            k <= ins.column_ids@.len(),
            forall|j: int| 0 <= j < k ==> valid_column_id(*database, #[trigger] ins.column_ids@[j]),
        decreases ins.column_ids.len() - k,
    {
        let id = ins.column_ids[k];
        if id.table_id >= database.tables.len() || id.column_index >= database.tables[id.table_id].columns.len() {
            return false;
        }
        k = k + 1;
    }
    let mut k: usize = 0;
    while k < ins.values.len()
        invariant
            *ins == t.operation->Insert_0,
            k <= ins.values@.len(),
            forall|j: int| 0 <= j < k ==> (#[trigger] ins.values@[j] matches ProxyColumn::Concrete(c) ==> c < bound),
        decreases ins.values.len() - k,
    {
        if let ProxyColumn::Concrete(c) = ins.values[k] {
            if c >= bound {
                return false;
            }
        }
        k = k + 1;
    }
    let mut k: usize = 0;
    while k < ins.returning.len()
        invariant
            *ins == t.operation->Insert_0,
            k <= ins.returning@.len(),
            forall|j: int| 0 <= j < k ==> #[trigger] ins.returning@[j] < bound,
        decreases ins.returning.len() - k,
    {
        if ins.returning[k] >= bound {
            return false;
        }
        k = k + 1;
    }
    assert(template_wf(*t, bound as int, *database));
    true
}

impl TransactionScript {
    /// Whether every step refers only to the schema and to nodes below `bound`.
    pub fn is_wf(&self, bound: usize, database: &Database) -> (r: bool)
        ensures
            r == script_wf(*self, bound as int, *database),
    {
        let mut k: usize = 0;
        while k < self.steps.len()
            invariant
                k <= self.steps@.len(),
                forall|j: int| 0 <= j < k ==> match #[trigger] self.steps@[j] {
                    TransactionStep::Concrete(c) => operation_wf(c.operation, bound as int, *database),
                    TransactionStep::Template(t) => template_wf(t, bound as int, *database),
                },
            decreases self.steps.len() - k,
        {
            let ok = match &self.steps[k] {
                TransactionStep::Concrete(c) => operation_is_wf(&c.operation, bound, database),
                TransactionStep::Template(t) => template_is_wf(t, bound, database),
            };
            if !ok {
                return false;
            }
            k = k + 1;
        }
        true
    }

    pub fn new() -> (r: TransactionScript)
        ensures
            r.steps@.len() == 0,
    {
        TransactionScript { steps: Vec::new() }
    }

    /// Appends a step; its id is its position in the script.
    pub fn add_step(&mut self, step: TransactionStep) -> (r: TransactionStepId)
        ensures
            r.0 == old(self).steps@.len(),
            final(self).steps@ == old(self).steps@.push(step),
    {
        let id = self.steps.len();
        self.steps.push(step);
        TransactionStepId(id)
    }

    /// The statements that step `i` runs, in order, given the results of the steps before
    /// it. The rows of the last statement are the step's result (none when there is none).
    pub fn plan_step(&self, i: usize, transaction_context: &TransactionContext, arena: &mut Vec<Column>, database: &Database)
        -> (r: Result<Vec<SQLBuilder>, DatabaseError>)
        requires
            i < self.steps@.len(),
            arena_wf(old(arena)@, *database),
            script_wf(*self, old(arena)@.len() as int, *database),
        ensures
            arena_wf(final(arena)@, *database),
            final(arena)@.len() >= old(arena)@.len(),
            final(arena)@.subrange(0, old(arena)@.len() as int) == old(arena)@,
            match self.steps@[i as int] {
                TransactionStep::Concrete(c) => r matches Ok(stmts) && renders_steps(final(arena)@, *database, seq![c], stmts@),
                TransactionStep::Template(t) => {
                    &&& (r is Ok <==> template_resolvable(*transaction_context, t))
                    &&& (r matches Err(e) ==> e is UnresolvedReference)
                    &&& (r matches Ok(stmts) ==> exists|steps: Seq<ConcreteTransactionStep>|
                        resolved_as(final(arena)@, *transaction_context, t, steps)
                            && renders_steps(final(arena)@, *database, steps, stmts@))
                },
            },
    {
        assert(arena@.subrange(0, arena@.len() as int) =~= arena@);
        assert(script_wf(*self, arena@.len() as int, *database));
        let ghost step = self.steps@[i as int];
        match &self.steps[i] {
            TransactionStep::Concrete(c) => {
                let b = c.operation.build(arena, database);
                let mut stmts: Vec<SQLBuilder> = Vec::new();
                stmts.push(b);
                assert(renders_steps(arena@, *database, seq![*c], stmts@));
                Ok(stmts)
            },
            TransactionStep::Template(t) => {
                let resolved = t.resolve(transaction_context, arena, database);
                match resolved {
                    Err(e) => Err(e),
                    Ok(steps) => {
                        let mut stmts: Vec<SQLBuilder> = Vec::new();
                        let mut k: usize = 0;
                        while k < steps.len()
                            invariant
                                k <= steps@.len(),
                                arena_wf(arena@, *database),
                                forall|j: int| 0 <= j < steps@.len()
                                    ==> operation_wf(#[trigger] steps@[j].operation, arena@.len() as int, *database),
                                stmts@.len() == k,
                                forall|j: int| 0 <= j < k ==> {
                                    &&& (#[trigger] stmts@[j]).sql@ == render_operation(arena@, *database, steps@[j].operation).0
                                    &&& params_view(stmts@[j].params@) == render_operation(arena@, *database, steps@[j].operation).1
                                },
                            decreases steps.len() - k,
                        {
                            let b = steps[k].operation.build(arena, database);
                            stmts.push(b);
                            k = k + 1;
                        }
                        assert(renders_steps(arena@, *database, steps@, stmts@));
                        Ok(stmts)
                    },
                }
            },
        }
    }
}

} // verus!
