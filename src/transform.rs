use vstd::prelude::*;
use crate::column_path::{ColumnIdPath, ColumnIdPathLink};
use crate::predicate::{AbstractPredicate, ColumnPath};
use crate::sql::{copy_values, Column, Database, Predicate, Select, arena_wf, node_wf, pred_below, select_wf, valid_column_id};

verus! {

/// Every column of the path exists, and every link but the last names the column it
/// joins to, in the table of the next link.
pub open spec fn path_wf(db: Database, path: Seq<ColumnIdPathLink>) -> bool {
    &&& path.len() > 0
    &&& forall|k: int| 0 <= k < path.len() ==> valid_column_id(db, #[trigger] path[k].self_column_id)
    &&& forall|k: int| 0 <= k < path.len() - 1 ==> {
        &&& (#[trigger] path[k]).linked_column_id is Some
        &&& valid_column_id(db, path[k].linked_column_id->Some_0)
        &&& path[k].linked_column_id->Some_0.table_id == path[k + 1].self_column_id.table_id
    }
}

pub open spec fn operand_wf(db: Database, c: ColumnPath) -> bool {
    match c {
        ColumnPath::Physical(p) => path_wf(db, p.path@),
        _ => true,
    }
}

pub open spec fn abstract_wf(db: Database, p: AbstractPredicate) -> bool
    decreases p,
{
    match p {
        AbstractPredicate::True | AbstractPredicate::False => true,
        AbstractPredicate::Eq(a, b) | AbstractPredicate::Neq(a, b) | AbstractPredicate::Lt(a, b)
        | AbstractPredicate::Lte(a, b) | AbstractPredicate::Gt(a, b) | AbstractPredicate::Gte(a, b)
        | AbstractPredicate::In(a, b) => operand_wf(db, a) && operand_wf(db, b),
        AbstractPredicate::And(a, b) | AbstractPredicate::Or(a, b) => abstract_wf(db, *a) && abstract_wf(db, *b),
        AbstractPredicate::Not(a) => abstract_wf(db, *a),
    }
}

/// Node `idx` reads the column at the end of `path` from its `k`-th link on: the last
/// link's column itself, or a sub-select of the next table correlated on the link.
#[verifier::opaque]
pub open spec fn binds_path(arena: Seq<Column>, idx: int, path: Seq<ColumnIdPathLink>, k: int) -> bool
    decreases path.len() - k,
{
    if k < 0 || k >= path.len() || idx < 0 || idx >= arena.len() {
        false
    } else if k == path.len() - 1 {
        arena[idx] == Column::Physical(path[k].self_column_id)
    } else {
        match arena[idx] {
            Column::SubSelect(s) => {
                &&& s.table_id == path[k].linked_column_id->Some_0.table_id
                &&& s.columns@.len() == 1
                &&& binds_path(arena, s.columns@[0] as int, path, k + 1)
                &&& s.predicate matches Predicate::Eq(a, b)
                &&& a < arena.len() && arena[a as int] == Column::Physical(path[k].linked_column_id->Some_0)
                &&& b < arena.len() && arena[b as int] == Column::Physical(path[k].self_column_id)
            },
            _ => false,
        }
    }
}

/// Node `idx` is the operand `c`.
pub open spec fn binds(arena: Seq<Column>, idx: int, c: ColumnPath) -> bool {
    0 <= idx < arena.len() && match c {
        ColumnPath::Physical(p) => binds_path(arena, idx, p.path@, 0),
        ColumnPath::Literal(v) => arena[idx] == Column::Param(v),
        ColumnPath::Null => arena[idx] == Column::Null,
        ColumnPath::LiteralList(l) => match arena[idx] {
            Column::ParamList(v) => v@ == l@,
            _ => false,
        },
    }
}

pub open spec fn binds_pair(arena: Seq<Column>, a: usize, b: usize, x: ColumnPath, y: ColumnPath) -> bool {
    binds(arena, a as int, x) && binds(arena, b as int, y)
}

/// `p` is the abstract predicate `ap` bound to nodes of the arena, operator for operator.
pub open spec fn bound_predicate(arena: Seq<Column>, ap: AbstractPredicate, p: Predicate) -> bool
    decreases ap,
{
    match (ap, p) {
        (AbstractPredicate::True, Predicate::True) => true,
        (AbstractPredicate::False, Predicate::False) => true,
        (AbstractPredicate::Eq(x, y), Predicate::Eq(a, b)) => binds_pair(arena, a, b, x, y),
        (AbstractPredicate::Neq(x, y), Predicate::Neq(a, b)) => binds_pair(arena, a, b, x, y),
        (AbstractPredicate::Lt(x, y), Predicate::Lt(a, b)) => binds_pair(arena, a, b, x, y),
        (AbstractPredicate::Lte(x, y), Predicate::Lte(a, b)) => binds_pair(arena, a, b, x, y),
        (AbstractPredicate::Gt(x, y), Predicate::Gt(a, b)) => binds_pair(arena, a, b, x, y),
        (AbstractPredicate::Gte(x, y), Predicate::Gte(a, b)) => binds_pair(arena, a, b, x, y),
        (AbstractPredicate::In(x, y), Predicate::In(a, b)) => binds_pair(arena, a, b, x, y),
        (AbstractPredicate::And(x, y), Predicate::And(a, b)) => bound_predicate(arena, *x, *a) && bound_predicate(arena, *y, *b),
        (AbstractPredicate::Or(x, y), Predicate::Or(a, b)) => bound_predicate(arena, *x, *a) && bound_predicate(arena, *y, *b),
        (AbstractPredicate::Not(x), Predicate::Not(a)) => bound_predicate(arena, *x, *a),
        _ => false,
    }
}

/// The arena only grew, kept its earlier nodes, and stayed well formed.
pub open spec fn grown(old_arena: Seq<Column>, new_arena: Seq<Column>, db: Database) -> bool {
    &&& new_arena.len() >= old_arena.len()
    &&& new_arena.subrange(0, old_arena.len() as int) == old_arena
    &&& arena_wf(new_arena, db)
}

pub proof fn lemma_grown_trans(a: Seq<Column>, b: Seq<Column>, c: Seq<Column>, db: Database)
    requires
        grown(a, b, db),
        grown(b, c, db),
    ensures
        grown(a, c, db),
{
    assert(c.subrange(0, a.len() as int) =~= c.subrange(0, b.len() as int).subrange(0, a.len() as int));
}

pub proof fn lemma_binds_path_stable(a: Seq<Column>, b: Seq<Column>, idx: int, path: Seq<ColumnIdPathLink>, k: int)
    requires
        binds_path(a, idx, path, k),
        b.len() >= a.len(),
        b.subrange(0, a.len() as int) == a,
    ensures
        binds_path(b, idx, path, k),
    decreases path.len() - k,
{
    reveal(binds_path);
    assert(b[idx] == b.subrange(0, a.len() as int)[idx]);
    if k < path.len() - 1 {
        let s = a[idx]->SubSelect_0;
        lemma_binds_path_stable(a, b, s.columns@[0] as int, path, k + 1);
        if let Predicate::Eq(x, y) = s.predicate {
            assert(b[x as int] == b.subrange(0, a.len() as int)[x as int]);
            assert(b[y as int] == b.subrange(0, a.len() as int)[y as int]);
        }
    }
}

pub proof fn lemma_binds_stable(a: Seq<Column>, b: Seq<Column>, idx: int, c: ColumnPath)
    requires
        binds(a, idx, c),
        b.len() >= a.len(),
        b.subrange(0, a.len() as int) == a,
    ensures
        binds(b, idx, c),
{
    assert(b[idx] == b.subrange(0, a.len() as int)[idx]);
    if let ColumnPath::Physical(p) = c {
        lemma_binds_path_stable(a, b, idx, p.path@, 0);
    }
}

pub proof fn lemma_bound_predicate_stable(a: Seq<Column>, b: Seq<Column>, ap: AbstractPredicate, p: Predicate)
    requires
        bound_predicate(a, ap, p),
        b.len() >= a.len(),
        b.subrange(0, a.len() as int) == a,
    ensures
        bound_predicate(b, ap, p),
    decreases ap,
{
    match (ap, p) {
        (AbstractPredicate::Eq(x, y), Predicate::Eq(i, j)) | (AbstractPredicate::Neq(x, y), Predicate::Neq(i, j))
        | (AbstractPredicate::Lt(x, y), Predicate::Lt(i, j)) | (AbstractPredicate::Lte(x, y), Predicate::Lte(i, j))
        | (AbstractPredicate::Gt(x, y), Predicate::Gt(i, j)) | (AbstractPredicate::Gte(x, y), Predicate::Gte(i, j))
        | (AbstractPredicate::In(x, y), Predicate::In(i, j)) => {
            lemma_binds_stable(a, b, i as int, x);
            lemma_binds_stable(a, b, j as int, y);
        },
        (AbstractPredicate::And(x, y), Predicate::And(i, j)) | (AbstractPredicate::Or(x, y), Predicate::Or(i, j)) => {
            lemma_bound_predicate_stable(a, b, *x, *i);
            lemma_bound_predicate_stable(a, b, *y, *j);
        },
        (AbstractPredicate::Not(x), Predicate::Not(i)) => {
            lemma_bound_predicate_stable(a, b, *x, *i);
        },
        _ => {},
    }
}


/// Folding two well-formed predicates with `and` gives a well-formed predicate.
pub proof fn lemma_and_wf(db: Database, a: AbstractPredicate, b: AbstractPredicate)
    requires
        abstract_wf(db, a),
        abstract_wf(db, b),
    ensures
        abstract_wf(db, crate::predicate::and_spec(a, b)),
{
}

pub proof fn lemma_pred_below_mono(p: Predicate, a: int, b: int)
    requires
        pred_below(p, a),
        a <= b,
    ensures
        pred_below(p, b),
    decreases p,
{
    match p {
        Predicate::And(x, y) | Predicate::Or(x, y) => {
            lemma_pred_below_mono(*x, a, b);
            lemma_pred_below_mono(*y, a, b);
        },
        Predicate::Not(x) => lemma_pred_below_mono(*x, a, b),
        _ => {},
    }
}

pub(crate) fn push_node(arena: &mut Vec<Column>, database: &Database, c: Column) -> (r: usize)
    requires
        arena_wf(old(arena)@, *database),
        node_wf(c, old(arena)@.len() as int, *database),
    ensures
        r == old(arena)@.len(),
        final(arena)@ == old(arena)@.push(c),
        grown(old(arena)@, final(arena)@, *database),
{
    let ghost before = arena@;
    arena.push(c);
    proof {
        assert forall|i: int| 0 <= i < arena@.len() implies node_wf(#[trigger] arena@[i], i, *database) by {
            if i < before.len() {
                assert(arena@[i] == before[i]);
            }
        }
        assert(arena@.subrange(0, before.len() as int) =~= before);
    }
    arena.len() - 1
}

proof fn lemma_subselect_binds(arena: Seq<Column>, s_idx: int, path: Seq<ColumnIdPathLink>, k: int, inner: usize, a: usize, b: usize)
    requires
        0 <= k < path.len() - 1,
        0 <= s_idx < arena.len(),
        arena[s_idx] matches Column::SubSelect(s) && s.table_id == path[k].linked_column_id->Some_0.table_id
            && s.columns@ == seq![inner] && s.predicate == Predicate::Eq(a, b),
        binds_path(arena, inner as int, path, k + 1),
        a < arena.len() && arena[a as int] == Column::Physical(path[k].linked_column_id->Some_0),
        b < arena.len() && arena[b as int] == Column::Physical(path[k].self_column_id),
    ensures
        binds_path(arena, s_idx, path, k),
{
    reveal(binds_path);
}

proof fn lemma_leaf_binds(arena: Seq<Column>, idx: int, path: Seq<ColumnIdPathLink>, k: int)
    requires
        k == path.len() - 1,
        0 <= k,
        0 <= idx < arena.len(),
        arena[idx] == Column::Physical(path[k].self_column_id),
    ensures
        binds_path(arena, idx, path, k),
{
    reveal(binds_path);
}

fn bind_path(arena: &mut Vec<Column>, database: &Database, path: &ColumnIdPath, k: usize) -> (r: usize)
    requires
        arena_wf(old(arena)@, *database),
        path_wf(*database, path.path@),
        k < path.path@.len(),
    ensures
        grown(old(arena)@, final(arena)@, *database),
        r < final(arena)@.len(),
        binds_path(final(arena)@, r as int, path.path@, k as int),
    decreases path.path@.len() - k,
{
    let link = path.path[k];
    assert(valid_column_id(*database, path.path@[k as int].self_column_id));
    if k == path.path.len() - 1 {
        let r = push_node(arena, database, Column::Physical(link.self_column_id));
        proof { lemma_leaf_binds(arena@, r as int, path.path@, k as int); }
        return r;
    }
    let ghost a0 = arena@;
    let inner = bind_path(arena, database, path, k + 1);
    let ghost a1 = arena@;
    assert(path.path@[k as int].linked_column_id is Some);
    let linked = match link.linked_column_id {
        Some(c) => c,
        None => link.self_column_id,
    };
    let a = push_node(arena, database, Column::Physical(linked));
    let b = push_node(arena, database, Column::Physical(link.self_column_id));
    let ghost a3 = arena@;
    let mut columns: Vec<usize> = Vec::new();
    columns.push(inner);
    let select = Select { table_id: linked.table_id, columns, predicate: Predicate::Eq(a, b), order_by: None, limit: None, offset: None };
    proof {
        assert(select.columns@ =~= seq![inner]);
        assert(pred_below(select.predicate, a3.len() as int));
        assert(select_wf(select, a3.len() as int, *database));
    }
    let s = push_node(arena, database, Column::SubSelect(Box::new(select)));
    proof {
        assert(a3 =~= a1.push(Column::Physical(linked)).push(Column::Physical(link.self_column_id)));
        assert(arena@ =~= a1.push(Column::Physical(linked)).push(Column::Physical(link.self_column_id)).push(Column::SubSelect(Box::new(select))));
        assert(arena@.subrange(0, a1.len() as int) =~= a1);
        assert(arena@.subrange(0, a0.len() as int) =~= a0) by {
            assert(a1.subrange(0, a0.len() as int) == a0);
        }
        lemma_binds_path_stable(a1, arena@, inner as int, path.path@, k + 1);
        lemma_subselect_binds(arena@, s as int, path.path@, k as int, inner, a, b);
    }
    s
}

fn bind_operand(arena: &mut Vec<Column>, database: &Database, c: &ColumnPath) -> (r: usize)
    requires
        arena_wf(old(arena)@, *database),
        operand_wf(*database, *c),
    ensures
        grown(old(arena)@, final(arena)@, *database),
        r < final(arena)@.len() && binds(final(arena)@, r as int, *c),
{
    match c {
        ColumnPath::Physical(p) => bind_path(arena, database, p, 0),
        ColumnPath::Literal(v) => push_node(arena, database, Column::Param(v.copy())),
        ColumnPath::LiteralList(l) => push_node(arena, database, Column::ParamList(copy_values(l))),
        ColumnPath::Null => push_node(arena, database, Column::Null),
    }
}

fn bind_pair(arena: &mut Vec<Column>, database: &Database, x: &ColumnPath, y: &ColumnPath) -> (r: (usize, usize))
    requires
        arena_wf(old(arena)@, *database),
        operand_wf(*database, *x),
        operand_wf(*database, *y),
    ensures
        grown(old(arena)@, final(arena)@, *database),
        r.0 < final(arena)@.len() && r.1 < final(arena)@.len() && binds_pair(final(arena)@, r.0, r.1, *x, *y),
{
    let ghost a0 = arena@;
    let a = bind_operand(arena, database, x);
    let ghost a1 = arena@;
    let b = bind_operand(arena, database, y);
    proof {
        lemma_grown_trans(a0, a1, arena@, *database);
        lemma_binds_stable(a1, arena@, a as int, *x);
    }
    (a, b)
}

/// Binds an abstract predicate to the schema: each operand becomes a node of the arena
/// (a column, a correlated sub-select for a longer path, a parameter, or `NULL`), and the
/// operators are kept as they are.
pub fn to_sql_predicate(arena: &mut Vec<Column>, database: &Database, p: &AbstractPredicate) -> (r: Predicate)
    requires
        arena_wf(old(arena)@, *database),
        abstract_wf(*database, *p),
    ensures
        grown(old(arena)@, final(arena)@, *database),
        bound_predicate(final(arena)@, *p, r),
        pred_below(r, final(arena)@.len() as int),
    decreases p,
{
    match p {
        AbstractPredicate::True => {
            assert(arena@.subrange(0, arena@.len() as int) =~= arena@);
            Predicate::True
        },
        AbstractPredicate::False => {
            assert(arena@.subrange(0, arena@.len() as int) =~= arena@);
            Predicate::False
        },
        AbstractPredicate::Eq(x, y) => {
            let (a, b) = bind_pair(arena, database, x, y);
            Predicate::Eq(a, b)
        },
        AbstractPredicate::Neq(x, y) => {
            let (a, b) = bind_pair(arena, database, x, y);
            Predicate::Neq(a, b)
        },
        AbstractPredicate::Lt(x, y) => {
            let (a, b) = bind_pair(arena, database, x, y);
            Predicate::Lt(a, b)
        },
        AbstractPredicate::Lte(x, y) => {
            let (a, b) = bind_pair(arena, database, x, y);
            Predicate::Lte(a, b)
        },
        AbstractPredicate::Gt(x, y) => {
            let (a, b) = bind_pair(arena, database, x, y);
            Predicate::Gt(a, b)
        },
        AbstractPredicate::Gte(x, y) => {
            let (a, b) = bind_pair(arena, database, x, y);
            Predicate::Gte(a, b)
        },
        AbstractPredicate::In(x, y) => {
            let (a, b) = bind_pair(arena, database, x, y);
            Predicate::In(a, b)
        },
        AbstractPredicate::And(x, y) | AbstractPredicate::Or(x, y) => {
            let ghost a0 = arena@;
            let l = to_sql_predicate(arena, database, x);
            let ghost a1 = arena@;
            let r = to_sql_predicate(arena, database, y);
            proof {
                lemma_grown_trans(a0, a1, arena@, *database);
                lemma_bound_predicate_stable(a1, arena@, **x, l);
                lemma_pred_below_mono(l, a1.len() as int, arena@.len() as int);
            }
            match p {
                AbstractPredicate::And(_, _) => Predicate::And(Box::new(l), Box::new(r)),
                _ => Predicate::Or(Box::new(l), Box::new(r)),
            }
        },
        AbstractPredicate::Not(x) => Predicate::Not(Box::new(to_sql_predicate(arena, database, x))),
    }
}

} // verus!
