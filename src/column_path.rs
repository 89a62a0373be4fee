use vstd::prelude::*;

verus! {

/// A physical column: a table's index in the database and the column's index in that table.
#[derive(Debug, Clone, Copy, PartialEq, Eq, Structural)]
pub struct ColumnId {
    pub table_id: usize,
    pub column_index: usize,
}

impl ColumnId {
    pub fn new(table_id: usize, column_index: usize) -> (r: ColumnId)
        ensures
            r.table_id == table_id,
            r.column_index == column_index,
    {
        ColumnId { table_id, column_index }
    }
}

/// One hop of a column path: a column of the current table and, for a relation, the
/// column of the next table that it joins to.
#[derive(Debug, Clone, Copy, PartialEq, Eq, Structural)]
pub struct ColumnIdPathLink {
    pub self_column_id: ColumnId,
    pub linked_column_id: Option<ColumnId>,
}

/// A traversal across foreign-key relations from a root table to a leaf column.
#[derive(Debug, PartialEq)]
pub struct ColumnIdPath {
    pub path: Vec<ColumnIdPathLink>,
}

/// Sort direction of one order-by element.
#[derive(Debug, Clone, Copy, PartialEq, Eq, Structural)]
pub enum Ordering {
    Asc,
    Desc,
}

/// An order-by clause over column paths, before it is bound to physical columns.
#[derive(Debug, PartialEq)]
pub struct AbstractOrderBy(pub Vec<(ColumnIdPath, Ordering)>);

/// A concrete order-by clause over physical columns.
#[derive(Debug, PartialEq)]
pub struct OrderBy(pub Vec<(ColumnId, Ordering)>);

/// The column that a non-empty path ends at.
pub open spec fn leaf_of(path: Seq<ColumnIdPathLink>) -> ColumnId
    recommends
        path.len() > 0,
{
    path.last().self_column_id
}

/// The column that a path ends at: the sort key of an order-by element.
pub fn leaf_column(column_id_path: &ColumnIdPath) -> (r: ColumnId)
    requires
        column_id_path.path@.len() > 0,
    ensures
        r == leaf_of(column_id_path.path@),
{
    column_id_path.path[column_id_path.path.len() - 1].self_column_id
}

/// Binds an abstract order-by to physical columns: each path becomes its leaf column,
/// in the same order and with the same direction.
pub fn to_order_by(order_by: &AbstractOrderBy) -> (r: OrderBy)
    requires
        forall|i: int| 0 <= i < order_by.0@.len() ==> (#[trigger] order_by.0@[i]).0.path@.len() > 0,
    ensures
        r.0@.len() == order_by.0@.len(),
        forall|i: int|
            0 <= i < r.0@.len() ==> (#[trigger] r.0@[i]) == (
            leaf_of(order_by.0@[i].0.path@),
            order_by.0@[i].1,
        ),
{
    let mut elements: Vec<(ColumnId, Ordering)> = Vec::new();
    let mut i: usize = 0;
    while i < order_by.0.len()
        invariant
            i <= order_by.0@.len(),
            elements@.len() == i,
            forall|k: int| 0 <= k < order_by.0@.len() ==> (#[trigger] order_by.0@[k]).0.path@.len() > 0,
            forall|k: int|
                0 <= k < i ==> (#[trigger] elements@[k]) == (
                leaf_of(order_by.0@[k].0.path@),
                order_by.0@[k].1,
            ),
        decreases order_by.0.len() - i,
    {
        let element = &order_by.0[i];
        elements.push((leaf_column(&element.0), element.1));
        i = i + 1;
    }
    OrderBy(elements)
}

} // verus!
