use vstd::prelude::*;
use vstd::string::StringExecFns;
use crate::value::str_eq;
use crate::column_path::ColumnId;
use crate::column_path::OrderBy;
use crate::argument::{Limit, Offset};
use crate::sql::{order_wf, Column, Database, PhysicalColumn, PhysicalTable, Predicate, Select, arena_wf, node_wf, pred_below, select_wf, valid_column_id};
use crate::transform::{grown, lemma_grown_trans, lemma_pred_below_mono, push_node, to_sql_predicate, abstract_wf, bound_predicate};
use crate::predicate::{AbstractPredicate, and_spec};
use crate::operation::{authorize, ExecutionError};
use crate::sql::SQLOperation;

verus! {

/// Whether a field or an operation returns an optional value, a value, or a list.
#[derive(Debug, Clone, Copy, PartialEq, Eq, Structural)]
pub enum ModelTypeModifier {
    Optional,
    NonNull,
    List,
}

/// How a field of a model type is stored.
#[derive(Debug, Clone, Copy, PartialEq, Eq, Structural)]
pub enum ModelRelation {
    Pk { column_id: ColumnId },
    Scalar { column_id: ColumnId },
    /// A reference to one row of another type through a column of this table.
    ManyToOne { column_id: ColumnId, other_type_id: usize, optional: bool },
    /// The rows of another type whose column refers to this row.
    OneToMany { other_type_column_id: ColumnId, other_type_id: usize },
}

impl ModelRelation {
    /// The column that holds the field, for a field stored in its own table.
    pub fn self_column(&self) -> (r: Option<ColumnId>)
        ensures
            r == match *self {
                ModelRelation::Pk { column_id } | ModelRelation::Scalar { column_id } => Some(column_id),
                _ => None::<ColumnId>,
            },
    {
        match self {
            ModelRelation::Pk { column_id } | ModelRelation::Scalar { column_id } => Some(*column_id),
            _ => None,
        }
    }
}

#[derive(Debug, PartialEq)]
pub struct ModelField {
    pub name: String,
    pub relation: ModelRelation,
}

/// A composite model type bound to a table.
#[derive(Debug, PartialEq)]
pub struct ModelType {
    pub name: String,
    pub table_id: usize,
    pub pk_column_id: ColumnId,
    pub fields: Vec<ModelField>,
}

/// The model: its types, identified by their index.
#[derive(Debug, PartialEq)]
pub struct ModelSystem {
    pub types: Vec<ModelType>,
}

/// A selected GraphQL field. Fields live in a `Vec`; a selection set lists earlier ones.
#[derive(Debug, PartialEq)]
pub struct SelectedField {
    pub name: String,
    pub alias: Option<String>,
    pub selection_set: Vec<usize>,
}

/// A query operation: the type it returns and whether it returns one value or a list.
#[derive(Debug, Clone, Copy, PartialEq, Eq, Structural)]
pub struct Query {
    pub return_type_id: usize,
    pub modifier: ModelTypeModifier,
}

/// Why a query could not be resolved into a statement.
#[derive(Debug, PartialEq)]
pub enum ResolveError {
    /// The access rules deny the query; no statement is built.
    Authorization,
    /// The selection names a field that does not exist.
    Plan(PlanError),
}

/// Why a selection could not be planned.
#[derive(Debug, Clone, Copy, PartialEq, Eq, Structural)]
pub enum PlanError {
    /// A selected field that its type does not have (or a malformed selection).
    UnknownField,
}

pub open spec fn relation_wf(system: ModelSystem, db: Database, r: ModelRelation) -> bool {
    match r {
        ModelRelation::Pk { column_id } | ModelRelation::Scalar { column_id } => valid_column_id(db, column_id),
        ModelRelation::ManyToOne { column_id, other_type_id, optional } =>
            valid_column_id(db, column_id) && other_type_id < system.types@.len(),
        ModelRelation::OneToMany { other_type_column_id, other_type_id } =>
            valid_column_id(db, other_type_column_id) && other_type_id < system.types@.len(),
    }
}

/// Every type's table and columns exist, and relations lead to types of the model.
pub open spec fn system_wf(system: ModelSystem, db: Database) -> bool {
    forall|t: int| 0 <= t < system.types@.len() ==> {
        &&& (#[trigger] system.types@[t]).table_id < db.tables@.len()
        &&& valid_column_id(db, system.types@[t].pk_column_id)
        &&& forall|i: int| 0 <= i < system.types@[t].fields@.len()
            ==> relation_wf(system, db, #[trigger] system.types@[t].fields@[i].relation)
    }
}

pub open spec fn output_name(f: SelectedField) -> Seq<char> {
    match f.alias {
        Some(a) => a@,
        None => f.name@,
    }
}

/// The index of the first field of the type named `name`.
pub open spec fn find_field(fields: Seq<ModelField>, name: Seq<char>, from: int) -> Option<int>
    decreases fields.len() - from,
{
    if from < 0 || from >= fields.len() {
        None
    } else if fields[from].name@ == name {
        Some(from)
    } else {
        find_field(fields, name, from + 1)
    }
}

/// The relation of the model field that selected field `f` names in type `t`.
pub open spec fn relation_of(system: ModelSystem, fields: Seq<SelectedField>, t: int, f: int) -> Option<ModelRelation> {
    match find_field(system.types@[t].fields@, fields[f].name@, 0) {
        Some(i) => Some(system.types@[t].fields@[i].relation),
        None => None,
    }
}

/// Selected field `f` exists in type `t`, and so do the fields selected below it.
pub open spec fn field_ok(system: ModelSystem, fields: Seq<SelectedField>, t: int, f: int) -> bool
    decreases f, 2int,
{
    if f < 0 || f >= fields.len() || t < 0 || t >= system.types@.len() {
        false
    } else {
        match relation_of(system, fields, t, f) {
            None => false,
            Some(ModelRelation::ManyToOne { other_type_id, .. }) => sel_ok(system, fields, other_type_id as int, fields[f].selection_set@, f),
            Some(ModelRelation::OneToMany { other_type_id, .. }) => sel_ok(system, fields, other_type_id as int, fields[f].selection_set@, f),
            Some(_) => true,
        }
    }
}

/// Each field of a selection set comes before `bound` and exists in type `t`.
pub open spec fn sel_ok(system: ModelSystem, fields: Seq<SelectedField>, t: int, sel: Seq<usize>, bound: int) -> bool
    decreases bound, 1int,
{
    forall|k: int| 0 <= k < sel.len() ==> (#[trigger] sel[k] < bound && field_ok(system, fields, t, sel[k] as int))
}


/// Node `v` holds selected field `f` of type `t`: its column; for a to-one relation a
/// sub-select of the other type's object correlated on the reference; for a to-many
/// relation a sub-select of the JSON array of the other type's objects.
pub open spec fn field_planned(arena: Seq<Column>, system: ModelSystem, fields: Seq<SelectedField>, t: int, f: int, v: int) -> bool
    decreases f, 2int,
{
    if f < 0 || f >= fields.len() || t < 0 || t >= system.types@.len() || v < 0 || v >= arena.len() {
        false
    } else {
        match relation_of(system, fields, t, f) {
            None => false,
            Some(ModelRelation::Pk { column_id }) => arena[v] == Column::Physical(column_id),
            Some(ModelRelation::Scalar { column_id }) => arena[v] == Column::Physical(column_id),
            Some(ModelRelation::ManyToOne { column_id, other_type_id, optional }) => match arena[v] {
                Column::SubSelect(s) => {
                    &&& other_type_id < system.types@.len()
                    &&& s.table_id == system.types@[other_type_id as int].table_id
                    &&& s.columns@.len() == 1
                    &&& content_planned(arena, system, fields, other_type_id as int, fields[f].selection_set@, f, s.columns@[0] as int)
                    &&& match s.predicate {
                        Predicate::Eq(a, b) => {
                            &&& a < arena.len() && arena[a as int] == Column::Physical(column_id)
                            &&& b < arena.len() && arena[b as int] == Column::Physical(system.types@[other_type_id as int].pk_column_id)
                        },
                        _ => false,
                    }
                },
                _ => false,
            },
            Some(ModelRelation::OneToMany { other_type_column_id, other_type_id }) => match arena[v] {
                Column::SubSelect(s) => {
                    &&& other_type_id < system.types@.len()
                    &&& s.table_id == system.types@[other_type_id as int].table_id
                    &&& s.columns@.len() == 1
                    &&& s.columns@[0] < arena.len()
                    &&& match arena[s.columns@[0] as int] {
                        Column::JsonAgg(c) => content_planned(arena, system, fields, other_type_id as int, fields[f].selection_set@, f, c as int),
                        _ => false,
                    }
                    &&& match s.predicate {
                        Predicate::Eq(a, b) => {
                            &&& a < arena.len() && arena[a as int] == Column::Physical(other_type_column_id)
                            &&& b < arena.len() && arena[b as int] == Column::Physical(system.types@[t].pk_column_id)
                        },
                        _ => false,
                    }
                },
                _ => false,
            },
        }
    }
}

/// Node `obj` is the JSON object of a selection set: one entry per selected field, in
/// order, under the field's output name.
pub open spec fn content_planned(arena: Seq<Column>, system: ModelSystem, fields: Seq<SelectedField>, t: int, sel: Seq<usize>, bound: int, obj: int) -> bool
    decreases bound, 1int,
{
    0 <= obj < arena.len() && match arena[obj] {
        Column::JsonObject(entries) => {
            &&& entries@.len() == sel.len()
            &&& forall|k: int| 0 <= k < sel.len() ==> (#[trigger] sel[k] < bound
                && entries@[k].0@ == output_name(fields[sel[k] as int])
                && field_planned(arena, system, fields, t, sel[k] as int, entries@[k].1 as int))
        },
        _ => false,
    }
}

pub proof fn lemma_field_planned_stable(a1: Seq<Column>, a2: Seq<Column>, system: ModelSystem, fields: Seq<SelectedField>, t: int, f: int, v: int)
    requires
        field_planned(a1, system, fields, t, f, v),
        a2.len() >= a1.len(),
        a2.subrange(0, a1.len() as int) == a1,
    ensures
        field_planned(a2, system, fields, t, f, v),
    decreases f, 2int,
{
    assert(forall|i: int| 0 <= i < a1.len() ==> a2[i] == #[trigger] a1[i]) by {
        assert forall|i: int| 0 <= i < a1.len() implies a2[i] == #[trigger] a1[i] by {
            assert(a2.subrange(0, a1.len() as int)[i] == a2[i]);
        }
    }
    match relation_of(system, fields, t, f) {
        Some(ModelRelation::ManyToOne { column_id, other_type_id, optional }) => {
            let s = a1[v]->SubSelect_0;
            lemma_content_planned_stable(a1, a2, system, fields, other_type_id as int, fields[f].selection_set@, f, s.columns@[0] as int);
        },
        Some(ModelRelation::OneToMany { other_type_column_id, other_type_id }) => {
            let s = a1[v]->SubSelect_0;
            let c = a1[s.columns@[0] as int]->JsonAgg_0;
            lemma_content_planned_stable(a1, a2, system, fields, other_type_id as int, fields[f].selection_set@, f, c as int);
        },
        _ => {},
    }
}

pub proof fn lemma_content_planned_stable(a1: Seq<Column>, a2: Seq<Column>, system: ModelSystem, fields: Seq<SelectedField>, t: int, sel: Seq<usize>, bound: int, obj: int)
    requires
        content_planned(a1, system, fields, t, sel, bound, obj),
        a2.len() >= a1.len(),
        a2.subrange(0, a1.len() as int) == a1,
    ensures
        content_planned(a2, system, fields, t, sel, bound, obj),
    decreases bound, 1int,
{
    assert(a2[obj] == a2.subrange(0, a1.len() as int)[obj]);
    let entries = a1[obj]->JsonObject_0;
    assert forall|k: int| 0 <= k < sel.len() implies (#[trigger] sel[k] < bound
        && entries@[k].0@ == output_name(fields[sel[k] as int])
        && field_planned(a2, system, fields, t, sel[k] as int, entries@[k].1 as int)) by {
        lemma_field_planned_stable(a1, a2, system, fields, t, sel[k] as int, entries@[k].1 as int);
    }
}

fn find_model_field(fields: &Vec<ModelField>, name: &str) -> (r: Option<usize>)
    ensures
        r matches Some(i) ==> find_field(fields@, name@, 0) == Some(i as int) && i < fields@.len(),
        r is None ==> find_field(fields@, name@, 0) is None,
{
    let mut i: usize = 0;
    while i < fields.len()
        invariant
            i <= fields@.len(),
            find_field(fields@, name@, 0) == find_field(fields@, name@, i as int),
        decreases fields.len() - i,
    {
        if str_eq(fields[i].name.as_str(), name) {
            return Some(i);
        }
        i = i + 1;
    }
    None
}

fn output_name_of(f: &SelectedField) -> (r: String)
    ensures
        r@ == output_name(*f),
{
    match &f.alias {
        Some(a) => a.clone(),
        None => f.name.clone(),
    }
}


fn plan_field(system: &ModelSystem, database: &Database, fields: &Vec<SelectedField>, t: usize, f: usize, arena: &mut Vec<Column>)
    -> (r: Result<usize, PlanError>)
    requires
        system_wf(*system, *database),
        arena_wf(old(arena)@, *database),
        t < system.types@.len(),
        f < fields@.len(),
    ensures
        grown(old(arena)@, final(arena)@, *database),
        r is Ok <==> field_ok(*system, fields@, t as int, f as int),
        r matches Ok(v) ==> field_planned(final(arena)@, *system, fields@, t as int, f as int, v as int),
    decreases f, 2int,
{
    let ghost a0 = arena@;
    assert(arena@.subrange(0, arena@.len() as int) =~= arena@);
    let typ = &system.types[t];
    let i = match find_model_field(&typ.fields, fields[f].name.as_str()) {
        Some(i) => i,
        None => return Err(PlanError::UnknownField),
    };
    assert(relation_wf(*system, *database, typ.fields@[i as int].relation));
    match typ.fields[i].relation {
        ModelRelation::Pk { column_id } | ModelRelation::Scalar { column_id } => {
            Ok(push_node(arena, database, Column::Physical(column_id)))
        },
        ModelRelation::ManyToOne { column_id, other_type_id, optional } => {
            let other = &system.types[other_type_id];
            let c = match plan_content(system, database, fields, other_type_id, &fields[f].selection_set, f, arena) {
                Ok(c) => c,
                Err(e) => return Err(e),
            };
            let ghost a1 = arena@;
            let a = push_node(arena, database, Column::Physical(column_id));
            let b = push_node(arena, database, Column::Physical(other.pk_column_id));
            let ghost a3 = arena@;
            let mut columns: Vec<usize> = Vec::new();
            columns.push(c);
            let select = Select { table_id: other.table_id, columns, predicate: Predicate::Eq(a, b), order_by: None, limit: None, offset: None };
            proof {
                assert(select.columns@ =~= seq![c]);
                assert(select_wf(select, a3.len() as int, *database));
            }
            let v = push_node(arena, database, Column::SubSelect(Box::new(select)));
            proof {
                assert(arena@ =~= a1.push(Column::Physical(column_id)).push(Column::Physical(other.pk_column_id)).push(Column::SubSelect(Box::new(select))));
                assert(arena@.subrange(0, a1.len() as int) =~= a1);
                lemma_grown_trans(a0, a1, arena@, *database);
                lemma_content_planned_stable(a1, arena@, *system, fields@, other_type_id as int, fields@[f as int].selection_set@, f as int, c as int);
            }
            Ok(v)
        },
        ModelRelation::OneToMany { other_type_column_id, other_type_id } => {
            let other = &system.types[other_type_id];
            let c = match plan_content(system, database, fields, other_type_id, &fields[f].selection_set, f, arena) {
                Ok(c) => c,
                Err(e) => return Err(e),
            };
            let ghost a1 = arena@;
            let g = push_node(arena, database, Column::JsonAgg(c));
            let a = push_node(arena, database, Column::Physical(other_type_column_id));
            let b = push_node(arena, database, Column::Physical(typ.pk_column_id));
            let ghost a4 = arena@;
            let mut columns: Vec<usize> = Vec::new();
            columns.push(g);
            let select = Select { table_id: other.table_id, columns, predicate: Predicate::Eq(a, b), order_by: None, limit: None, offset: None };
            proof {
                assert(select.columns@ =~= seq![g]);
                assert(select_wf(select, a4.len() as int, *database));
            }
            let v = push_node(arena, database, Column::SubSelect(Box::new(select)));
            proof {
                assert(arena@ =~= a1.push(Column::JsonAgg(c)).push(Column::Physical(other_type_column_id)).push(Column::Physical(typ.pk_column_id)).push(Column::SubSelect(Box::new(select))));
                assert(arena@.subrange(0, a1.len() as int) =~= a1);
                lemma_grown_trans(a0, a1, arena@, *database);
                lemma_content_planned_stable(a1, arena@, *system, fields@, other_type_id as int, fields@[f as int].selection_set@, f as int, c as int);
            }
            Ok(v)
        },
    }
}

fn plan_content(system: &ModelSystem, database: &Database, fields: &Vec<SelectedField>, t: usize, sel: &Vec<usize>, bound: usize, arena: &mut Vec<Column>)
    -> (r: Result<usize, PlanError>)
    requires
        system_wf(*system, *database),
        arena_wf(old(arena)@, *database),
        t < system.types@.len(),
        bound <= fields@.len(),
    ensures
        grown(old(arena)@, final(arena)@, *database),
        r is Ok <==> sel_ok(*system, fields@, t as int, sel@, bound as int),
        r matches Ok(obj) ==> content_planned(final(arena)@, *system, fields@, t as int, sel@, bound as int, obj as int),
    decreases bound, 1int,
{
    let ghost a0 = arena@;
    assert(arena@.subrange(0, arena@.len() as int) =~= arena@);
    let mut entries: Vec<(String, usize)> = Vec::new();
    let mut k: usize = 0;
    while k < sel.len()
        invariant
            k <= sel@.len(),
            system_wf(*system, *database),
            t < system.types@.len(),
            bound <= fields@.len(),
            a0 == old(arena)@,
            grown(a0, arena@, *database),
            entries@.len() == k,
            forall|j: int| 0 <= j < k ==> (#[trigger] sel@[j] < bound
                && field_ok(*system, fields@, t as int, sel@[j] as int)
                && entries@[j].0@ == output_name(fields@[sel@[j] as int])
                && entries@[j].1 < arena@.len()
                && field_planned(arena@, *system, fields@, t as int, sel@[j] as int, entries@[j].1 as int)),
        decreases sel.len() - k,
    {
        let f = sel[k];
        if f >= bound {
            assert(!(sel@[k as int] < bound));
            return Err(PlanError::UnknownField);
        }
        let ghost before = arena@;
        let v = match plan_field(system, database, fields, t, f, arena) {
            Ok(v) => v,
            Err(e) => {
                proof { lemma_grown_trans(a0, before, arena@, *database); }
                assert(!field_ok(*system, fields@, t as int, sel@[k as int] as int));
                return Err(e);
            },
        };
        proof {
            lemma_grown_trans(a0, before, arena@, *database);
            assert forall|j: int| 0 <= j < k implies field_planned(arena@, *system, fields@, t as int, sel@[j] as int, entries@[j].1 as int) by {
                lemma_field_planned_stable(before, arena@, *system, fields@, t as int, sel@[j] as int, entries@[j].1 as int);
            }
        }
        entries.push((output_name_of(&fields[f]), v));
        k = k + 1;
    }
    let ghost a1 = arena@;
    let ghost e = entries@;
    assert forall|j: int| 0 <= j < e.len() implies #[trigger] e[j].1 < a1.len() by {
        assert(sel@[j] < bound);
    }
    let obj = push_node(arena, database, Column::JsonObject(entries));
    proof {
        lemma_grown_trans(a0, a1, arena@, *database);
        assert(arena@[obj as int] == Column::JsonObject(entries));
        assert forall|j: int| 0 <= j < sel@.len() implies (#[trigger] sel@[j] < bound
            && e[j].0@ == output_name(fields@[sel@[j] as int])
            && field_planned(arena@, *system, fields@, t as int, sel@[j] as int, e[j].1 as int)) by {
            lemma_field_planned_stable(a1, arena@, *system, fields@, t as int, sel@[j] as int, e[j].1 as int);
        }
        assert(sel_ok(*system, fields@, t as int, sel@, bound as int));
    }
    Ok(obj)
}

impl Query {
    /// Plans the select of this query for selected field `f`: one JSON object per row
    /// for a single value, or a JSON array of them for a list, filtered by `predicate`,
    /// with the given limit and offset. Only a list is ordered: a single value has no
    /// order.
    pub fn operation(
        &self,
        system: &ModelSystem,
        database: &Database,
        fields: &Vec<SelectedField>,
        f: usize,
        predicate: Predicate,
        order_by: Option<OrderBy>,
        limit: Option<Limit>,
        offset: Option<Offset>,
        arena: &mut Vec<Column>,
    ) -> (r: Result<Select, PlanError>)
        requires
            system_wf(*system, *database),
            arena_wf(old(arena)@, *database),
            self.return_type_id < system.types@.len(),
            f < fields@.len(),
            pred_below(predicate, old(arena)@.len() as int),
            order_wf(*database, order_by),
        ensures
            grown(old(arena)@, final(arena)@, *database),
            r is Ok <==> sel_ok(*system, fields@, self.return_type_id as int, fields@[f as int].selection_set@, f as int),
            r matches Ok(s) ==> {
                &&& s.table_id == system.types@[self.return_type_id as int].table_id
                &&& s.predicate == predicate
                &&& self.modifier == ModelTypeModifier::List ==> s.order_by == order_by
                &&& self.modifier != ModelTypeModifier::List ==> s.order_by is None
                &&& s.limit == limit
                &&& s.offset == offset
                &&& s.columns@.len() == 1
                &&& select_wf(s, final(arena)@.len() as int, *database)
                &&& self.modifier == ModelTypeModifier::List ==> match final(arena)@[s.columns@[0] as int] {
                    Column::JsonAgg(c) => content_planned(final(arena)@, *system, fields@, self.return_type_id as int,
                        fields@[f as int].selection_set@, f as int, c as int),
                    _ => false,
                }
                &&& self.modifier != ModelTypeModifier::List ==> content_planned(final(arena)@, *system, fields@,
                    self.return_type_id as int, fields@[f as int].selection_set@, f as int, s.columns@[0] as int)
            },
    {
        let ghost a0 = arena@;
        let typ = &system.types[self.return_type_id];
        let content = match plan_content(system, database, fields, self.return_type_id, &fields[f].selection_set, f, arena) {
            Ok(c) => c,
            Err(e) => return Err(e),
        };
        let ghost a1 = arena@;
        let column = match self.modifier {
            ModelTypeModifier::List => push_node(arena, database, Column::JsonAgg(content)),
            _ => content,
        };
        let mut columns: Vec<usize> = Vec::new();
        columns.push(column);
        proof {
            if self.modifier == ModelTypeModifier::List {
                lemma_grown_trans(a0, a1, arena@, *database);
                lemma_content_planned_stable(a1, arena@, *system, fields@, self.return_type_id as int, fields@[f as int].selection_set@, f as int, content as int);
            }
            lemma_pred_below_mono(predicate, a0.len() as int, arena@.len() as int);
            assert(columns@ =~= seq![column]);
        }
        let order_by = match self.modifier {
            ModelTypeModifier::List => order_by,
            _ => None,
        };
        Ok(Select { table_id: typ.table_id, columns, predicate, order_by, limit, offset })
    }

    /// Resolves the query: denied outright when the access predicate is `False`; otherwise
    /// the access predicate joins the filter as one more conjunct, is bound to the schema,
    /// and the select is planned with it.
    pub fn resolve<'a>(
        &self,
        system: &ModelSystem,
        database: &Database,
        fields: &Vec<SelectedField>,
        f: usize,
        access: AbstractPredicate<'a>,
        filter: AbstractPredicate<'a>,
        order_by: Option<OrderBy>,
        limit: Option<Limit>,
        offset: Option<Offset>,
        arena: &mut Vec<Column>,
    ) -> (r: Result<SQLOperation, ResolveError>)
        requires
            order_wf(*database, order_by),
            system_wf(*system, *database),
            arena_wf(old(arena)@, *database),
            self.return_type_id < system.types@.len(),
            f < fields@.len(),
            abstract_wf(*database, access),
            abstract_wf(*database, filter),
        ensures
            grown(old(arena)@, final(arena)@, *database),
            access == AbstractPredicate::<'a>::False <==> r == Err::<SQLOperation, ResolveError>(ResolveError::Authorization),
            access == AbstractPredicate::<'a>::False ==> final(arena)@ == old(arena)@,
            access != AbstractPredicate::<'a>::False
                && !sel_ok(*system, fields@, self.return_type_id as int, fields@[f as int].selection_set@, f as int)
                ==> r == Err::<SQLOperation, ResolveError>(ResolveError::Plan(PlanError::UnknownField)),
            access != AbstractPredicate::<'a>::False
                && sel_ok(*system, fields@, self.return_type_id as int, fields@[f as int].selection_set@, f as int)
                ==> r is Ok,
            r matches Ok(SQLOperation::Select(s)) ==> {
                &&& bound_predicate(final(arena)@, and_spec(filter, access), s.predicate)
                &&& self.modifier == ModelTypeModifier::List ==> s.order_by == order_by
                &&& self.modifier != ModelTypeModifier::List ==> s.order_by is None
                &&& s.limit == limit
                &&& s.offset == offset
                &&& s.table_id == system.types@[self.return_type_id as int].table_id
                &&& s.columns@.len() == 1
                &&& select_wf(s, final(arena)@.len() as int, *database)
                &&& self.modifier == ModelTypeModifier::List ==> match final(arena)@[s.columns@[0] as int] {
                    Column::JsonAgg(c) => content_planned(final(arena)@, *system, fields@, self.return_type_id as int,
                        fields@[f as int].selection_set@, f as int, c as int),
                    _ => false,
                }
                &&& self.modifier != ModelTypeModifier::List ==> content_planned(final(arena)@, *system, fields@,
                    self.return_type_id as int, fields@[f as int].selection_set@, f as int, s.columns@[0] as int)
            },
            r matches Ok(op) ==> op is Select,
    {
        assert(arena@.subrange(0, arena@.len() as int) =~= arena@);
        let combined = match authorize(access, filter) {
            Ok(p) => p,
            Err(_) => return Err(ResolveError::Authorization),
        };
        proof {
            crate::transform::lemma_and_wf(*database, filter, access);
        }
        let ghost a0 = arena@;
        let predicate = to_sql_predicate(arena, database, &combined);
        let ghost a1 = arena@;
        let planned = self.operation(system, database, fields, f, predicate, order_by, limit, offset, arena);
        proof {
            lemma_grown_trans(a0, a1, arena@, *database);
        }
        match planned {
            Ok(s) => {
                proof {
                    crate::transform::lemma_bound_predicate_stable(a1, arena@, combined, s.predicate);
                }
                Ok(SQLOperation::Select(s))
            },
            Err(e) => Err(ResolveError::Plan(e)),
        }
    }
}


fn physical_column(table: &str, column: &str) -> (r: PhysicalColumn)
    ensures
        r.table_name@ == table@,
        r.column_name@ == column@,
{
    PhysicalColumn { table_name: String::from_str(table), column_name: String::from_str(column) }
}

fn model_field(name: &str, relation: ModelRelation) -> (r: ModelField)
    ensures
        r.name@ == name@,
        r.relation == relation,
{
    ModelField { name: String::from_str(name), relation }
}

/// `Concert { id, title, venue: Venue }` over table `concerts` (0).
fn create_concert_model_type() -> (r: ModelType)
    ensures
        r.table_id == 0,
        r.pk_column_id == (ColumnId { table_id: 0, column_index: 0 }),
        r.fields@.len() == 3,
        r.fields@[0].relation == (ModelRelation::Pk { column_id: (ColumnId { table_id: 0, column_index: 0 }) }),
        r.fields@[1].relation == (ModelRelation::Scalar { column_id: (ColumnId { table_id: 0, column_index: 1 }) }),
        r.fields@[2].relation == (ModelRelation::ManyToOne { column_id: (ColumnId { table_id: 0, column_index: 2 }), other_type_id: 1, optional: false }),
{
    let mut fields: Vec<ModelField> = Vec::new();
    fields.push(model_field("id", ModelRelation::Pk { column_id: ColumnId::new(0, 0) }));
    fields.push(model_field("title", ModelRelation::Scalar { column_id: ColumnId::new(0, 1) }));
    fields.push(model_field("venue", ModelRelation::ManyToOne { column_id: ColumnId::new(0, 2), other_type_id: 1, optional: false }));
    ModelType { name: String::from_str("Concert"), table_id: 0, pk_column_id: ColumnId::new(0, 0), fields }
}

/// `Venue { id, name, concerts: [Concert] }` over table `venues` (1).
fn create_venue_model_type() -> (r: ModelType)
    ensures
        r.table_id == 1,
        r.pk_column_id == (ColumnId { table_id: 1, column_index: 0 }),
        r.fields@.len() == 3,
        r.fields@[0].relation == (ModelRelation::Pk { column_id: (ColumnId { table_id: 1, column_index: 0 }) }),
        r.fields@[1].relation == (ModelRelation::Scalar { column_id: (ColumnId { table_id: 1, column_index: 1 }) }),
        r.fields@[2].relation == (ModelRelation::OneToMany { other_type_column_id: (ColumnId { table_id: 0, column_index: 2 }), other_type_id: 0 }),
{
    let mut fields: Vec<ModelField> = Vec::new();
    fields.push(model_field("id", ModelRelation::Pk { column_id: ColumnId::new(1, 0) }));
    fields.push(model_field("name", ModelRelation::Scalar { column_id: ColumnId::new(1, 1) }));
    fields.push(model_field("concerts", ModelRelation::OneToMany { other_type_column_id: ColumnId::new(0, 2), other_type_id: 0 }));
    ModelType { name: String::from_str("Venue"), table_id: 1, pk_column_id: ColumnId::new(1, 0), fields }
}

/// A sample model of concerts and their venues, with its schema.
pub fn test_system() -> (r: (ModelSystem, Database))
    ensures
        system_wf(r.0, r.1),
        r.0.types@.len() == 2,
        r.1.tables@.len() == 2,
{
    let mut concert_columns: Vec<PhysicalColumn> = Vec::new();
    concert_columns.push(physical_column("concerts", "id"));
    concert_columns.push(physical_column("concerts", "title"));
    concert_columns.push(physical_column("concerts", "venueid"));
    let mut venue_columns: Vec<PhysicalColumn> = Vec::new();
    venue_columns.push(physical_column("venues", "id"));
    venue_columns.push(physical_column("venues", "name"));
    let mut tables: Vec<PhysicalTable> = Vec::new();
    tables.push(PhysicalTable { name: String::from_str("concerts"), columns: concert_columns });
    tables.push(PhysicalTable { name: String::from_str("venues"), columns: venue_columns });
    let database = Database { tables };

    let mut types: Vec<ModelType> = Vec::new();
    types.push(create_concert_model_type());
    types.push(create_venue_model_type());
    let system = ModelSystem { types };
    proof {
        assert forall|t: int| 0 <= t < system.types@.len() implies {
            &&& (#[trigger] system.types@[t]).table_id < database.tables@.len()
            &&& valid_column_id(database, system.types@[t].pk_column_id)
            &&& forall|i: int| 0 <= i < system.types@[t].fields@.len()
                ==> relation_wf(system, database, #[trigger] system.types@[t].fields@[i].relation)
        } by {
            assert forall|i: int| 0 <= i < system.types@[t].fields@.len()
                implies relation_wf(system, database, #[trigger] system.types@[t].fields@[i].relation) by {
                if t == 0 {
                    assert(i == 0 || i == 1 || i == 2);
                } else {
                    assert(i == 0 || i == 1 || i == 2);
                }
            }
        }
    }
    (system, database)
}

} // verus!
