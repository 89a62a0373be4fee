use exo_core::argument::{Limit, Offset};
use exo_core::column_path::{ColumnId, OrderBy, Ordering};
use exo_core::sql::{Column, Database, Insert, PhysicalColumn, PhysicalTable, Predicate, SQLOperation, Select};
use exo_core::value::SqlValue;
use exo_core::sql::SqlParam;

fn values(v: Vec<SqlValue>) -> Vec<SqlParam> {
    v.into_iter().map(SqlParam::Value).collect()
}

fn physical(table: &str, column: &str) -> PhysicalColumn {
    PhysicalColumn { table_name: table.to_string(), column_name: column.to_string() }
}

fn database() -> Database {
    Database {
        tables: vec![
            PhysicalTable {
                name: "concerts".to_string(),
                columns: vec![physical("concerts", "id"), physical("concerts", "title"), physical("concerts", "venueid")],
            },
            PhysicalTable { name: "venues".to_string(), columns: vec![physical("venues", "id"), physical("venues", "name")] },
        ],
    }
}

fn select(table_id: usize, columns: Vec<usize>, predicate: Predicate) -> SQLOperation {
    SQLOperation::Select(Select { table_id, columns, predicate, order_by: None, limit: None, offset: None })
}

#[test]
fn literal_is_bound_as_parameter_never_inlined() {
    let db = database();
    let hostile = "'; DROP TABLE x; --".to_string();
    let arena = vec![Column::Physical(ColumnId::new(0, 1)), Column::Param(SqlValue::Text(hostile.clone()))];
    let op = select(0, vec![0], Predicate::Eq(0, 1));
    let built = op.build(&arena, &db);
    assert_eq!(built.sql, "select \"concerts\".\"title\" from \"concerts\" where \"concerts\".\"title\" = $1");
    assert!(!built.sql.contains("DROP"));
    assert_eq!(built.params, values(vec![SqlValue::Text(hostile)]));
}

#[test]
fn number_literal_is_bound_as_parameter() {
    let db = database();
    let arena = vec![Column::Physical(ColumnId::new(0, 0)), Column::Param(SqlValue::Int(42))];
    let built = select(0, vec![0], Predicate::Gt(0, 1)).build(&arena, &db);
    assert_eq!(built.sql, "select \"concerts\".\"id\" from \"concerts\" where \"concerts\".\"id\" > $1");
    assert!(!built.sql.contains("42"));
    assert_eq!(built.params, values(vec![SqlValue::Int(42)]));
}

#[test]
fn placeholders_are_numbered_in_order() {
    let db = database();
    let arena = vec![
        Column::Physical(ColumnId::new(0, 0)),
        Column::Param(SqlValue::Int(1)),
        Column::Physical(ColumnId::new(0, 1)),
        Column::Param(SqlValue::Text("x".to_string())),
    ];
    let predicate = Predicate::And(Box::new(Predicate::Gte(0, 1)), Box::new(Predicate::Neq(2, 3)));
    let built = select(0, vec![0], predicate).build(&arena, &db);
    assert_eq!(
        built.sql,
        "select \"concerts\".\"id\" from \"concerts\" where (\"concerts\".\"id\" >= $1) AND (\"concerts\".\"title\" <> $2)"
    );
    assert_eq!(built.params, values(vec![SqlValue::Int(1), SqlValue::Text("x".to_string())]));
}

#[test]
fn ten_parameters_get_two_digit_placeholders() {
    let db = database();
    let mut arena = vec![];
    for i in 0..10 {
        arena.push(Column::Param(SqlValue::Int(i)));
    }
    let built = select(0, (0..10).collect(), Predicate::True).build(&arena, &db);
    assert!(built.sql.starts_with("select $1, $2, $3, $4, $5, $6, $7, $8, $9, $10 from"));
    assert_eq!(built.params.len(), 10);
}

#[test]
fn json_aggregate_defaults_to_empty_array() {
    let db = database();
    let arena = vec![
        Column::Physical(ColumnId::new(0, 0)),
        Column::Physical(ColumnId::new(0, 1)),
        Column::JsonObject(vec![("id".to_string(), 0), ("title".to_string(), 1)]),
        Column::JsonAgg(2),
    ];
    let built = select(0, vec![3], Predicate::True).build(&arena, &db);
    assert_eq!(
        built.sql,
        "select coalesce(json_agg(json_build_object('id', \"concerts\".\"id\", 'title', \"concerts\".\"title\")), '[]'::json) from \"concerts\" where TRUE"
    );
    assert!(built.params.is_empty());
}

#[test]
fn to_one_relation_is_a_correlated_subselect() {
    let db = database();
    let arena = vec![
        Column::Physical(ColumnId::new(1, 1)),
        Column::JsonObject(vec![("name".to_string(), 0)]),
        Column::Physical(ColumnId::new(1, 0)),
        Column::Physical(ColumnId::new(0, 2)),
        Column::SubSelect(Box::new(Select {
            table_id: 1,
            columns: vec![1],
            predicate: Predicate::Eq(2, 3),
            order_by: None,
            limit: None,
            offset: None,
        })),
        Column::Physical(ColumnId::new(0, 1)),
        Column::JsonObject(vec![("title".to_string(), 5), ("venue".to_string(), 4)]),
    ];
    let built = select(0, vec![6], Predicate::True).build(&arena, &db);
    assert_eq!(
        built.sql,
        "select json_build_object('title', \"concerts\".\"title\", 'venue', (select json_build_object('name', \"venues\".\"name\") from \"venues\" where \"venues\".\"id\" = \"concerts\".\"venueid\")) from \"concerts\" where TRUE"
    );
}

#[test]
fn other_column_kinds() {
    let db = database();
    let arena = vec![
        Column::Function { function_name: "count".to_string(), column_id: ColumnId::new(0, 0) },
        Column::Star(None),
        Column::Star(Some("venues".to_string())),
        Column::Constant("Concert".to_string()),
        Column::Null,
        Column::Param(SqlValue::Null),
    ];
    let built = select(0, vec![0, 1, 2, 3, 4], Predicate::Not(Box::new(Predicate::In(4, 5)))).build(&arena, &db);
    assert_eq!(
        built.sql,
        "select count(\"concerts\".\"id\"), *, \"venues\".*, 'Concert', NULL from \"concerts\" where NOT (NULL = ANY($1))"
    );
    assert_eq!(built.params, values(vec![SqlValue::Null]));
}

#[test]
fn rendering_twice_gives_the_same_statement() {
    let db = database();
    let arena = vec![Column::Physical(ColumnId::new(0, 1)), Column::Param(SqlValue::Text("a".to_string()))];
    let op = select(0, vec![0], Predicate::Lt(0, 1));
    assert_eq!(op.build(&arena, &db), op.build(&arena, &db));
}

#[test]
fn insert_with_returning() {
    let db = database();
    let arena = vec![
        Column::Param(SqlValue::Text("Rock".to_string())),
        Column::Param(SqlValue::Int(7)),
        Column::Physical(ColumnId::new(0, 0)),
        Column::Param(SqlValue::Text("Jazz".to_string())),
    ];
    let op = SQLOperation::Insert(Insert {
        table_id: 0,
        column_ids: vec![ColumnId::new(0, 1), ColumnId::new(0, 2)],
        rows: vec![vec![0, 1], vec![3, 1]],
        returning: vec![2],
    });
    let built = op.build(&arena, &db);
    assert_eq!(
        built.sql,
        "insert into \"concerts\" (\"title\", \"venueid\") values ($1, $2), ($3, $4) returning \"concerts\".\"id\""
    );
    assert_eq!(
        built.params,
        values(vec![SqlValue::Text("Rock".to_string()), SqlValue::Int(7), SqlValue::Text("Jazz".to_string()), SqlValue::Int(7)])
    );
}

#[test]
fn order_limit_and_offset() {
    let db = database();
    let arena = vec![Column::Physical(ColumnId::new(0, 1)), Column::Param(SqlValue::Int(2))];
    let op = SQLOperation::Select(Select {
        table_id: 0,
        columns: vec![0],
        predicate: Predicate::Gt(0, 1),
        order_by: Some(OrderBy(vec![(ColumnId::new(0, 1), Ordering::Asc), (ColumnId::new(0, 0), Ordering::Desc)])),
        limit: Some(Limit(10)),
        offset: Some(Offset(20)),
    });
    let built = op.build(&arena, &db);
    assert_eq!(
        built.sql,
        "select \"concerts\".\"title\" from \"concerts\" where \"concerts\".\"title\" > $1 order by \"concerts\".\"title\" ASC, \"concerts\".\"id\" DESC limit $2 offset $3"
    );
    assert_eq!(built.params, values(vec![SqlValue::Int(2), SqlValue::Int(10), SqlValue::Int(20)]));
}

#[test]
fn empty_order_adds_nothing() {
    let db = database();
    let arena = vec![Column::Physical(ColumnId::new(0, 0))];
    let op = SQLOperation::Select(Select {
        table_id: 0,
        columns: vec![0],
        predicate: Predicate::True,
        order_by: Some(OrderBy(vec![])),
        limit: None,
        offset: Some(Offset(5)),
    });
    let built = op.build(&arena, &db);
    assert_eq!(built.sql, "select \"concerts\".\"id\" from \"concerts\" where TRUE offset $1");
    assert_eq!(built.params, values(vec![SqlValue::Int(5)]));
}

#[test]
fn list_is_bound_as_one_array_parameter() {
    let db = database();
    let arena = vec![
        Column::Physical(ColumnId::new(0, 0)),
        Column::ParamList(vec![SqlValue::Int(1), SqlValue::Int(2)]),
    ];
    let built = select(0, vec![0], Predicate::In(0, 1)).build(&arena, &db);
    assert_eq!(built.sql, "select \"concerts\".\"id\" from \"concerts\" where \"concerts\".\"id\" = ANY($1)");
    assert_eq!(built.params, vec![SqlParam::List(vec![SqlValue::Int(1), SqlValue::Int(2)])]);
}
