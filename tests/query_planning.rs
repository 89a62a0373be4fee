use exo_core::access::{
    AccessContextSelection, AccessPredicateExpression, AccessRelationalOp, ContextValue,
    DatabaseAccessPrimitiveExpression, PostgresAccessSolver, RequestContext,
};
use exo_core::argument::Limit;
use exo_core::column_path::{ColumnId, ColumnIdPath, ColumnIdPathLink, OrderBy, Ordering};
use exo_core::predicate::{AbstractPredicate, ColumnPath};
use exo_core::query::{ModelField, ModelRelation, ModelSystem, ModelType, ModelTypeModifier, PlanError, Query, ResolveError, SelectedField};
use exo_core::sql::{Column, Database, PhysicalColumn, PhysicalTable, Predicate, SQLOperation};
use exo_core::transform::to_sql_predicate;
use exo_core::value::SqlValue;
use exo_core::sql::SqlParam;

fn values(v: Vec<SqlValue>) -> Vec<SqlParam> {
    v.into_iter().map(SqlParam::Value).collect()
}

fn physical(table: &str, column: &str) -> PhysicalColumn {
    PhysicalColumn { table_name: table.to_string(), column_name: column.to_string() }
}

fn database() -> Database {
    Database {
        tables: vec![
            PhysicalTable {
                name: "concerts".to_string(),
                columns: vec![physical("concerts", "id"), physical("concerts", "title"), physical("concerts", "venueid")],
            },
            PhysicalTable { name: "venues".to_string(), columns: vec![physical("venues", "id"), physical("venues", "name")] },
        ],
    }
}

fn field(name: &str, relation: ModelRelation) -> ModelField {
    ModelField { name: name.to_string(), relation }
}

fn system() -> ModelSystem {
    ModelSystem {
        types: vec![
            ModelType {
                name: "Concert".to_string(),
                table_id: 0,
                pk_column_id: ColumnId::new(0, 0),
                fields: vec![
                    field("id", ModelRelation::Pk { column_id: ColumnId::new(0, 0) }),
                    field("title", ModelRelation::Scalar { column_id: ColumnId::new(0, 1) }),
                    field("venue", ModelRelation::ManyToOne { column_id: ColumnId::new(0, 2), other_type_id: 1, optional: false }),
                ],
            },
            ModelType {
                name: "Venue".to_string(),
                table_id: 1,
                pk_column_id: ColumnId::new(1, 0),
                fields: vec![
                    field("id", ModelRelation::Pk { column_id: ColumnId::new(1, 0) }),
                    field("name", ModelRelation::Scalar { column_id: ColumnId::new(1, 1) }),
                    field("concerts", ModelRelation::OneToMany { other_type_column_id: ColumnId::new(0, 2), other_type_id: 0 }),
                ],
            },
        ],
    }
}

fn selected(name: &str, alias: Option<&str>, selection_set: Vec<usize>) -> SelectedField {
    SelectedField { name: name.to_string(), alias: alias.map(|a| a.to_string()), selection_set }
}

#[test]
fn list_query_with_to_one_relation() {
    let db = database();
    let fields = vec![
        selected("name", None, vec![]),
        selected("title", Some("heading"), vec![]),
        selected("venue", None, vec![0]),
        selected("concerts", None, vec![1, 2]),
    ];
    let query = Query { return_type_id: 0, modifier: ModelTypeModifier::List };
    let mut arena = vec![];
    let select = query.operation(&system(), &db, &fields, 3, Predicate::True, None, None, None, &mut arena).unwrap();
    let built = SQLOperation::Select(select).build(&arena, &db);
    assert_eq!(
        built.sql,
        "select coalesce(json_agg(json_build_object('heading', \"concerts\".\"title\", 'venue', (select json_build_object('name', \"venues\".\"name\") from \"venues\" where \"concerts\".\"venueid\" = \"venues\".\"id\"))), '[]'::json) from \"concerts\" where TRUE"
    );
}

#[test]
fn to_many_relation_defaults_to_empty_array() {
    let db = database();
    let fields = vec![
        selected("title", None, vec![]),
        selected("name", None, vec![]),
        selected("concerts", None, vec![0]),
        selected("venue", None, vec![1, 2]),
    ];
    let query = Query { return_type_id: 1, modifier: ModelTypeModifier::NonNull };
    let mut arena = vec![];
    let select = query.operation(&system(), &db, &fields, 3, Predicate::True, None, None, None, &mut arena).unwrap();
    let built = SQLOperation::Select(select).build(&arena, &db);
    assert_eq!(
        built.sql,
        "select json_build_object('name', \"venues\".\"name\", 'concerts', (select coalesce(json_agg(json_build_object('title', \"concerts\".\"title\")), '[]'::json) from \"concerts\" where \"concerts\".\"venueid\" = \"venues\".\"id\")) from \"venues\" where TRUE"
    );
}

#[test]
fn unknown_field_is_refused() {
    let db = database();
    let fields = vec![selected("rating", None, vec![]), selected("concerts", None, vec![0])];
    let query = Query { return_type_id: 0, modifier: ModelTypeModifier::List };
    let mut arena = vec![];
    assert_eq!(query.operation(&system(), &db, &fields, 1, Predicate::True, None, None, None, &mut arena), Err(PlanError::UnknownField));
}

fn path(links: Vec<(ColumnId, Option<ColumnId>)>) -> ColumnIdPath {
    ColumnIdPath { path: links.into_iter().map(|(s, l)| ColumnIdPathLink { self_column_id: s, linked_column_id: l }).collect() }
}

#[test]
fn longer_path_becomes_correlated_subselect() {
    let db = database();
    // concert.venue.name
    let venue_name = path(vec![(ColumnId::new(0, 2), Some(ColumnId::new(1, 0))), (ColumnId::new(1, 1), None)]);
    let predicate = AbstractPredicate::Eq(ColumnPath::Physical(&venue_name), ColumnPath::Literal(SqlValue::Text("Hall".to_string())));
    let mut arena = vec![Column::Physical(ColumnId::new(0, 1))];
    let sql_predicate = to_sql_predicate(&mut arena, &db, &predicate);
    let op = SQLOperation::Select(exo_core::sql::Select {
        table_id: 0,
        columns: vec![0],
        predicate: sql_predicate,
        order_by: None,
        limit: None,
        offset: None,
    });
    let built = op.build(&arena, &db);
    assert_eq!(
        built.sql,
        "select \"concerts\".\"title\" from \"concerts\" where (select \"venues\".\"name\" from \"venues\" where \"venues\".\"id\" = \"concerts\".\"venueid\") = $1"
    );
    assert_eq!(built.params, values(vec![SqlValue::Text("Hall".to_string())]));
}

#[test]
fn list_literal_is_bound_as_one_parameter() {
    let db = database();
    let title = path(vec![(ColumnId::new(0, 1), None)]);
    let values = vec![SqlValue::Text("Rock".to_string()), SqlValue::Text("Jazz".to_string())];
    let predicate = AbstractPredicate::In(ColumnPath::Physical(&title), ColumnPath::LiteralList(&values));
    let mut arena = vec![];
    let sql_predicate = to_sql_predicate(&mut arena, &db, &predicate);
    let op = SQLOperation::Select(exo_core::sql::Select {
        table_id: 0,
        columns: vec![0],
        predicate: sql_predicate,
        order_by: None,
        limit: None,
        offset: None,
    });
    let built = op.build(&arena, &db);
    assert_eq!(
        built.sql,
        "select \"concerts\".\"title\" from \"concerts\" where \"concerts\".\"title\" = ANY($1)"
    );
    assert_eq!(built.params, vec![SqlParam::List(values.iter().map(|v| v.copy()).collect())]);
}

#[test]
fn resolve_denies_before_building_anything() {
    let db = database();
    let fields = vec![selected("title", None, vec![]), selected("concerts", None, vec![0])];
    let query = Query { return_type_id: 0, modifier: ModelTypeModifier::List };
    let mut arena = vec![];
    let r = query.resolve(&system(), &db, &fields, 1, AbstractPredicate::False, AbstractPredicate::True, None, None, None, &mut arena);
    assert_eq!(r, Err(ResolveError::Authorization));
    assert!(arena.is_empty());
}

#[test]
fn resolve_folds_access_into_filter() {
    let db = database();
    let fields = vec![selected("title", None, vec![]), selected("concerts", None, vec![0])];
    let query = Query { return_type_id: 0, modifier: ModelTypeModifier::List };
    let title = path(vec![(ColumnId::new(0, 1), None)]);
    let id = path(vec![(ColumnId::new(0, 0), None)]);
    let access = AbstractPredicate::Neq(ColumnPath::Physical(&title), ColumnPath::Null);
    let filter = AbstractPredicate::Gt(ColumnPath::Physical(&id), ColumnPath::Literal(SqlValue::Int(3)));
    let mut arena = vec![];
    let op = query.resolve(&system(), &db, &fields, 1, access, filter, None, Some(Limit(5)), None, &mut arena).unwrap();
    let built = op.build(&arena, &db);
    assert_eq!(
        built.sql,
        "select coalesce(json_agg(json_build_object('title', \"concerts\".\"title\")), '[]'::json) from \"concerts\" where (\"concerts\".\"id\" > $1) AND (\"concerts\".\"title\" <> NULL) limit $2"
    );
    assert_eq!(built.params, values(vec![SqlValue::Int(3), SqlValue::Int(5)]));
}

#[test]
fn self_column_of_stored_fields() {
    assert_eq!(ModelRelation::Scalar { column_id: ColumnId::new(0, 1) }.self_column(), Some(ColumnId::new(0, 1)));
    assert_eq!(
        ModelRelation::OneToMany { other_type_column_id: ColumnId::new(0, 2), other_type_id: 0 }.self_column(),
        None
    );
}

#[test]
fn sample_model_plans_venue_names() {
    let (system, db) = exo_core::query::test_system();
    assert_eq!(system.types.len(), 2);
    let fields = vec![selected("name", None, vec![]), selected("venues", None, vec![0])];
    let query = Query { return_type_id: 1, modifier: ModelTypeModifier::List };
    let mut arena = vec![];
    let select = query.operation(&system, &db, &fields, 1, Predicate::True, None, None, None, &mut arena).unwrap();
    assert_eq!(
        SQLOperation::Select(select).build(&arena, &db).sql,
        "select coalesce(json_agg(json_build_object('name', \"venues\".\"name\")), '[]'::json) from \"venues\" where TRUE"
    );
}

#[test]
fn single_value_query_drops_the_order() {
    let db = database();
    let fields = vec![selected("name", None, vec![]), selected("venue", None, vec![0])];
    let query = Query { return_type_id: 1, modifier: ModelTypeModifier::NonNull };
    let order = Some(OrderBy(vec![(ColumnId::new(1, 1), Ordering::Asc)]));
    let mut arena = vec![];
    let select = query.operation(&system(), &db, &fields, 1, Predicate::True, order, None, None, &mut arena).unwrap();
    assert_eq!(select.order_by, None);
    let list = Query { return_type_id: 1, modifier: ModelTypeModifier::List };
    let order = Some(OrderBy(vec![(ColumnId::new(1, 1), Ordering::Asc)]));
    let select = list.operation(&system(), &db, &fields, 1, Predicate::True, order, None, None, &mut arena).unwrap();
    assert_eq!(select.order_by, Some(OrderBy(vec![(ColumnId::new(1, 1), Ordering::Asc)])));
}

#[test]
fn access_against_a_context_list_is_pushed_to_sql() {
    let db = database();
    let mut ctx = RequestContext::new();
    ctx.add(
        vec!["AccessContext".to_string(), "venues".to_string()],
        ContextValue::List(vec![SqlValue::Int(3), SqlValue::Int(4)]),
    );
    let rule = AccessPredicateExpression::RelationalOp(AccessRelationalOp::In(
        Box::new(DatabaseAccessPrimitiveExpression::Column(path(vec![(ColumnId::new(0, 2), None)]))),
        Box::new(DatabaseAccessPrimitiveExpression::ContextSelection(AccessContextSelection::Select(
            Box::new(AccessContextSelection::Context("AccessContext".to_string())),
            "venues".to_string(),
        ))),
    ));
    let access = PostgresAccessSolver::new(&ctx).solve(&rule);
    let fields = vec![selected("title", None, vec![]), selected("concerts", None, vec![0])];
    let query = Query { return_type_id: 0, modifier: ModelTypeModifier::List };
    let mut arena = vec![];
    let op = query.resolve(&system(), &db, &fields, 1, access, AbstractPredicate::True, None, None, None, &mut arena).unwrap();
    let built = op.build(&arena, &db);
    assert_eq!(
        built.sql,
        "select coalesce(json_agg(json_build_object('title', \"concerts\".\"title\")), '[]'::json) from \"concerts\" where \"concerts\".\"venueid\" = ANY($1)"
    );
    assert_eq!(built.params, vec![SqlParam::List(vec![SqlValue::Int(3), SqlValue::Int(4)])]);
}
