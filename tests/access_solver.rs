use exo_core::access::{
    AccessContextSelection, AccessLogicalExpression, AccessPredicateExpression, AccessRelationalOp,
    ContextValue, DatabaseAccessPrimitiveExpression, PostgresAccessSolver, RequestContext,
};
use exo_core::column_path::{ColumnId, ColumnIdPath, ColumnIdPathLink};
use exo_core::predicate::{AbstractPredicate, ColumnPath};
use exo_core::value::SqlValue;

type Prim = DatabaseAccessPrimitiveExpression;
type OpCtor = fn(Box<Prim>, Box<Prim>) -> AccessRelationalOp;
type PredCtor<'a> = fn(ColumnPath<'a>, ColumnPath<'a>) -> AbstractPredicate<'a>;

struct TestSystem {
    published: ColumnIdPath,
    owner_id: ColumnIdPath,
    dept1_id: ColumnIdPath,
    dept2_id: ColumnIdPath,
}

fn column_path(index: usize) -> ColumnIdPath {
    ColumnIdPath {
        path: vec![ColumnIdPathLink { self_column_id: ColumnId::new(0, index), linked_column_id: None }],
    }
}

fn test_system() -> TestSystem {
    TestSystem { published: column_path(1), owner_id: column_path(2), dept1_id: column_path(3), dept2_id: column_path(4) }
}

fn context_selection(head: &str, tail: &[&str]) -> AccessContextSelection {
    match tail {
        [] => AccessContextSelection::Context(head.to_string()),
        [init @ .., last] => AccessContextSelection::Select(Box::new(context_selection(head, init)), last.to_string()),
    }
}

fn context_selection_expr(head: &str, tail: &[&str]) -> Box<Prim> {
    Box::new(Prim::ContextSelection(context_selection(head, tail)))
}

fn boolean_context_selection(selection: AccessContextSelection) -> AccessPredicateExpression {
    AccessPredicateExpression::RelationalOp(AccessRelationalOp::Eq(
        Box::new(Prim::ContextSelection(selection)),
        Box::new(Prim::BooleanLiteral(true)),
    ))
}

fn boolean_column_selection(path: ColumnIdPath) -> AccessPredicateExpression {
    AccessPredicateExpression::RelationalOp(AccessRelationalOp::Eq(
        Box::new(Prim::Column(path)),
        Box::new(Prim::BooleanLiteral(true)),
    ))
}

fn text(s: &str) -> SqlValue {
    SqlValue::Text(s.to_string())
}

/// A context that holds `AccessContext.<field>` for each pair.
fn request_context(values: Vec<(&str, SqlValue)>) -> RequestContext {
    let mut ctx = RequestContext::new();
    for (field, value) in values {
        ctx.add(vec!["AccessContext".to_string(), field.to_string()], ContextValue::Scalar(value));
    }
    ctx
}

fn solve<'a>(expr: &'a AccessPredicateExpression, ctx: &'a RequestContext) -> AbstractPredicate<'a> {
    PostgresAccessSolver::new(ctx).solve(expr)
}

fn truth<'a>(b: bool) -> AbstractPredicate<'a> {
    if b { AbstractPredicate::True } else { AbstractPredicate::False }
}

/// Expected outcomes: two equal context values, two different ones ("token_value1" before
/// "token_value2"), the operator with a context value left of a column, and the one for
/// an unresolved context value.
#[allow(clippy::too_many_arguments)]
fn test_relational_op<'a>(
    system: &'a TestSystem,
    op: OpCtor,
    equal_values: bool,
    ordered_values: bool,
    context_left_of_column: PredCtor<'a>,
    column_left_of_context: PredCtor<'a>,
    context_missing: bool,
    column_column: PredCtor<'a>,
) {

    // Both values from the context
    let test_ae = AccessPredicateExpression::RelationalOp(op(
        context_selection_expr("AccessContext", &["token1"]),
        context_selection_expr("AccessContext", &["token2"]),
    ));
    let ctx = request_context(vec![("token1", text("token_value")), ("token2", text("token_value"))]);
    assert_eq!(solve(&test_ae, &ctx), truth(equal_values));
    let ctx = request_context(vec![("token1", text("token_value1")), ("token2", text("token_value2"))]);
    assert_eq!(solve(&test_ae, &ctx), truth(ordered_values));

    // One value from the context and the other from a column, in both orders
    let context_first = AccessPredicateExpression::RelationalOp(op(
        context_selection_expr("AccessContext", &["user_id"]),
        Box::new(Prim::Column(column_path(2))),
    ));
    let column_first = AccessPredicateExpression::RelationalOp(op(
        Box::new(Prim::Column(column_path(2))),
        context_selection_expr("AccessContext", &["user_id"]),
    ));
    let ctx = request_context(vec![("user_id", text("u1"))]);
    assert_eq!(
        solve(&context_first, &ctx),
        context_left_of_column(ColumnPath::Physical(&system.owner_id), ColumnPath::Literal(text("u1")))
    );
    assert_eq!(
        solve(&column_first, &ctx),
        column_left_of_context(ColumnPath::Physical(&system.owner_id), ColumnPath::Literal(text("u1")))
    );
    // No user_id, so the comparison is decided without the database
    let ctx = request_context(vec![]);
    assert_eq!(solve(&context_first, &ctx), truth(context_missing));
    assert_eq!(solve(&column_first, &ctx), truth(context_missing));

    // Both values from columns; the context is irrelevant
    let test_ae = AccessPredicateExpression::RelationalOp(op(
        Box::new(Prim::Column(column_path(3))),
        Box::new(Prim::Column(column_path(4))),
    ));
    let ctx = RequestContext::new();
    assert_eq!(
        solve(&test_ae, &ctx),
        column_column(ColumnPath::Physical(&system.dept1_id), ColumnPath::Physical(&system.dept2_id))
    );
}

#[test]
fn basic_eq() {
    test_relational_op(&test_system(), AccessRelationalOp::Eq, true, false, AbstractPredicate::Eq, AbstractPredicate::Eq, false, AbstractPredicate::Eq);
}

#[test]
fn basic_neq() {
    test_relational_op(&test_system(), AccessRelationalOp::Neq, false, true, AbstractPredicate::Neq, AbstractPredicate::Neq, true, AbstractPredicate::Neq);
}

#[test]
fn basic_lt() {
    test_relational_op(&test_system(), AccessRelationalOp::Lt, false, true, AbstractPredicate::Gt, AbstractPredicate::Lt, false, AbstractPredicate::Lt);
}

#[test]
fn basic_lte() {
    test_relational_op(&test_system(), AccessRelationalOp::Lte, true, true, AbstractPredicate::Gte, AbstractPredicate::Lte, false, AbstractPredicate::Lte);
}

#[test]
fn basic_gt() {
    test_relational_op(&test_system(), AccessRelationalOp::Gt, false, false, AbstractPredicate::Lt, AbstractPredicate::Gt, false, AbstractPredicate::Gt);
}

#[test]
fn basic_gte() {
    test_relational_op(&test_system(), AccessRelationalOp::Gte, true, false, AbstractPredicate::Lte, AbstractPredicate::Gte, false, AbstractPredicate::Gte);
}

type LogicalCtor = fn(Box<AccessPredicateExpression>, Box<AccessPredicateExpression>) -> AccessLogicalExpression;

#[allow(clippy::too_many_arguments)]
fn test_logical_op<'a>(
    system: &'a TestSystem,
    op: LogicalCtor,
    both_true: bool,
    both_false: bool,
    one_true: bool,
    literal_true_and_column_is_column: bool,
    literal_false_and_column_is_column: bool,
    both_columns: fn(Box<AbstractPredicate<'a>>, Box<AbstractPredicate<'a>>) -> AbstractPredicate<'a>,
) {
    let logical = |a: AccessPredicateExpression, b: AccessPredicateExpression| {
        AccessPredicateExpression::LogicalOp(op(Box::new(a), Box::new(b)))
    };

    // Two literals
    let ctx = RequestContext::new();
    for (l1, l2, expected) in [(true, true, both_true), (true, false, one_true), (false, true, one_true), (false, false, both_false)] {
        let test_ae = logical(AccessPredicateExpression::BooleanLiteral(l1), AccessPredicateExpression::BooleanLiteral(l2));
        assert_eq!(solve(&test_ae, &ctx), truth(expected));
    }

    // Two context values
    let ctx = request_context(vec![
        ("v1", SqlValue::Bool(true)),
        ("v1_clone", SqlValue::Bool(true)),
        ("v2", SqlValue::Bool(false)),
        ("v2_clone", SqlValue::Bool(false)),
    ]);
    for (c1, c2, expected) in [("v1", "v1_clone", both_true), ("v1", "v2", one_true), ("v2", "v1", one_true), ("v2", "v2_clone", both_false)] {
        let test_ae = logical(
            boolean_context_selection(context_selection("AccessContext", &[c1])),
            boolean_context_selection(context_selection("AccessContext", &[c2])),
        );
        assert_eq!(solve(&test_ae, &ctx), truth(expected));
    }

    // One literal and the other a column, in both orders
    let ctx = RequestContext::new();
    for (l, is_column, constant) in [
        (true, literal_true_and_column_is_column, one_true),
        (false, literal_false_and_column_is_column, one_true),
    ] {
        let column_predicate = AbstractPredicate::Eq(ColumnPath::Physical(&system.dept1_id), ColumnPath::Literal(SqlValue::Bool(true)));
        let expected = if is_column { column_predicate } else { truth(constant) };
        let test_ae = logical(AccessPredicateExpression::BooleanLiteral(l), boolean_column_selection(column_path(3)));
        assert_eq!(solve(&test_ae, &ctx), expected);
        let test_ae = logical(boolean_column_selection(column_path(3)), AccessPredicateExpression::BooleanLiteral(l));
        assert_eq!(solve(&test_ae, &ctx), expected);
    }

    // Two columns
    let test_ae = logical(boolean_column_selection(column_path(3)), boolean_column_selection(column_path(4)));
    assert_eq!(
        solve(&test_ae, &ctx),
        both_columns(
            Box::new(AbstractPredicate::Eq(ColumnPath::Physical(&system.dept1_id), ColumnPath::Literal(SqlValue::Bool(true)))),
            Box::new(AbstractPredicate::Eq(ColumnPath::Physical(&system.dept2_id), ColumnPath::Literal(SqlValue::Bool(true)))),
        )
    );
}

#[test]
fn basic_and() {
    // `true && column` is the column, `false && column` is false
    test_logical_op(&test_system(), AccessLogicalExpression::And, true, false, false, true, false, AbstractPredicate::And);
}

#[test]
fn basic_or() {
    // `true || column` is true, `false || column` is the column
    test_logical_op(&test_system(), AccessLogicalExpression::Or, true, false, true, false, true, AbstractPredicate::Or);
}

#[test]
fn basic_not() {
    let system = test_system();
    let not = |e: AccessPredicateExpression| AccessPredicateExpression::LogicalOp(AccessLogicalExpression::Not(Box::new(e)));

    // A literal
    let ctx = RequestContext::new();
    for (l1, expected) in [(true, AbstractPredicate::False), (false, AbstractPredicate::True)] {
        let test_ae = not(AccessPredicateExpression::BooleanLiteral(l1));
        assert_eq!(solve(&test_ae, &ctx), expected);
    }

    // A context value
    let ctx = request_context(vec![("v1", SqlValue::Bool(true)), ("v2", SqlValue::Bool(false))]);
    for (c1, expected) in [("v1", AbstractPredicate::False), ("v2", AbstractPredicate::True)] {
        let test_ae = not(boolean_context_selection(AccessContextSelection::Select(
            Box::new(AccessContextSelection::Context("AccessContext".to_string())),
            c1.to_string(),
        )));
        assert_eq!(solve(&test_ae, &ctx), expected);
    }

    // A column
    let ctx = RequestContext::new();
    let test_ae = not(boolean_column_selection(column_path(3)));
    assert_eq!(
        solve(&test_ae, &ctx),
        AbstractPredicate::Neq(ColumnPath::Physical(&system.dept1_id), ColumnPath::Literal(SqlValue::Bool(true)))
    );
}

#[test]
fn context_only() {
    // Scenario: AccessContext.role == "ROLE_ADMIN"
    let test_ae = AccessPredicateExpression::RelationalOp(AccessRelationalOp::Eq(
        context_selection_expr("AccessContext", &["role"]),
        Box::new(Prim::StringLiteral("ROLE_ADMIN".to_owned())),
    ));
    let ctx = request_context(vec![("role", text("ROLE_ADMIN"))]);
    assert_eq!(solve(&test_ae, &ctx), AbstractPredicate::True);
    let ctx = request_context(vec![("role", text("ROLE_USER"))]);
    assert_eq!(solve(&test_ae, &ctx), AbstractPredicate::False);
}

#[test]
fn context_and_dynamic() {
    // Scenario: AccessContext.role == "ROLE_ADMIN" || self.published
    let system = test_system();
    let admin_access = AccessPredicateExpression::RelationalOp(AccessRelationalOp::Eq(
        context_selection_expr("AccessContext", &["role"]),
        Box::new(Prim::StringLiteral("ROLE_ADMIN".to_owned())),
    ));
    let user_access = boolean_column_selection(column_path(1));
    let test_ae = AccessPredicateExpression::LogicalOp(AccessLogicalExpression::Or(Box::new(admin_access), Box::new(user_access)));

    let ctx = request_context(vec![("role", text("ROLE_ADMIN"))]);
    assert_eq!(solve(&test_ae, &ctx), AbstractPredicate::True);
    let ctx = request_context(vec![("role", text("ROLE_USER"))]);
    assert_eq!(
        solve(&test_ae, &ctx),
        AbstractPredicate::Eq(ColumnPath::Physical(&system.published), ColumnPath::Literal(SqlValue::Bool(true)))
    );
}

#[test]
fn context_compared_with_dynamic() {
    // Scenario: AccessContext.user_id == self.owner_id
    let system = test_system();
    let test_ae = AccessPredicateExpression::RelationalOp(AccessRelationalOp::Eq(
        context_selection_expr("AccessContext", &["user_id"]),
        Box::new(Prim::Column(column_path(2))),
    ));
    let ctx = request_context(vec![("user_id", text("1"))]);
    assert_eq!(
        solve(&test_ae, &ctx),
        AbstractPredicate::Eq(ColumnPath::Physical(&system.owner_id), ColumnPath::Literal(text("1")))
    );
    let ctx = request_context(vec![("user_id", text("2"))]);
    assert_eq!(
        solve(&test_ae, &ctx),
        AbstractPredicate::Eq(ColumnPath::Physical(&system.owner_id), ColumnPath::Literal(text("2")))
    );
}

#[test]
fn varied_rule_for_roles() {
    // Scenario: AccessContext.role == "ROLE_ADMIN" || (AccessContext.role == "ROLE_USER" && self.published == true)
    let system = test_system();
    let admin_access = AccessPredicateExpression::RelationalOp(AccessRelationalOp::Eq(
        context_selection_expr("AccessContext", &["role"]),
        Box::new(Prim::StringLiteral("ROLE_ADMIN".to_owned())),
    ));
    let role_rule = AccessPredicateExpression::RelationalOp(AccessRelationalOp::Eq(
        context_selection_expr("AccessContext", &["role"]),
        Box::new(Prim::StringLiteral("ROLE_USER".to_owned())),
    ));
    let data_rule = AccessPredicateExpression::RelationalOp(AccessRelationalOp::Eq(
        Box::new(Prim::Column(column_path(1))),
        Box::new(Prim::BooleanLiteral(true)),
    ));
    let user_access = AccessPredicateExpression::LogicalOp(AccessLogicalExpression::And(Box::new(role_rule), Box::new(data_rule)));
    let test_ae = AccessPredicateExpression::LogicalOp(AccessLogicalExpression::Or(Box::new(admin_access), Box::new(user_access)));

    // For admins, allow access without any further restrictions
    let ctx = request_context(vec![("role", text("ROLE_ADMIN"))]);
    assert_eq!(solve(&test_ae, &ctx), AbstractPredicate::True);
    // For users, allow only if the article is published
    let ctx = request_context(vec![("role", text("ROLE_USER"))]);
    assert_eq!(
        solve(&test_ae, &ctx),
        AbstractPredicate::Eq(ColumnPath::Physical(&system.published), ColumnPath::Literal(SqlValue::Bool(true)))
    );
    // For other roles, do not allow
    let ctx = request_context(vec![("role", text("ROLE_GUEST"))]);
    assert_eq!(solve(&test_ae, &ctx), AbstractPredicate::False);
    // Irrelevant context content that doesn't define a role
    let ctx = request_context(vec![("Foo", text("bar"))]);
    assert_eq!(solve(&test_ae, &ctx), AbstractPredicate::False);
    // No context content
    let ctx = RequestContext::new();
    assert_eq!(solve(&test_ae, &ctx), AbstractPredicate::False);
}

#[test]
fn top_level_boolean_literal() {
    let ctx = RequestContext::new();
    let test_ae = AccessPredicateExpression::BooleanLiteral(true);
    assert_eq!(solve(&test_ae, &ctx), AbstractPredicate::True);
    let test_ae = AccessPredicateExpression::BooleanLiteral(false);
    assert_eq!(solve(&test_ae, &ctx), AbstractPredicate::False);
}

#[test]
fn top_level_boolean_column() {
    // Scenario: self.published
    let system = test_system();
    let test_ae = boolean_column_selection(column_path(1));
    let ctx = RequestContext::new();
    assert_eq!(
        solve(&test_ae, &ctx),
        AbstractPredicate::Eq(ColumnPath::Physical(&system.published), ColumnPath::Literal(SqlValue::Bool(true)))
    );
}

#[test]
fn top_level_boolean_context() {
    // Scenario: AccessContext.is_admin
    let test_ae = boolean_context_selection(context_selection("AccessContext", &["is_admin"]));
    let ctx = request_context(vec![("is_admin", SqlValue::Bool(true))]);
    assert_eq!(solve(&test_ae, &ctx), AbstractPredicate::True);
    let ctx = request_context(vec![("is_admin", SqlValue::Bool(false))]);
    assert_eq!(solve(&test_ae, &ctx), AbstractPredicate::False);
    // Context not provided, so the user is not an admin
    let ctx = RequestContext::new();
    assert_eq!(solve(&test_ae, &ctx), AbstractPredicate::False);
}

#[test]
fn literal_comparisons_are_decided() {
    let ctx = RequestContext::new();
    let cases: Vec<(OpCtor, Prim, Prim, bool)> = vec![
        (AccessRelationalOp::Lt, Prim::NumberLiteral(3), Prim::NumberLiteral(5), true),
        (AccessRelationalOp::Gte, Prim::NumberLiteral(3), Prim::NumberLiteral(5), false),
        (AccessRelationalOp::Lte, Prim::StringLiteral("abc".to_string()), Prim::StringLiteral("abd".to_string()), true),
        (AccessRelationalOp::Gt, Prim::BooleanLiteral(true), Prim::BooleanLiteral(false), true),
        (AccessRelationalOp::Eq, Prim::NumberLiteral(1), Prim::StringLiteral("1".to_string()), false),
        (AccessRelationalOp::Neq, Prim::NumberLiteral(1), Prim::StringLiteral("1".to_string()), true),
        (AccessRelationalOp::Lt, Prim::NumberLiteral(1), Prim::StringLiteral("2".to_string()), false),
    ];
    for (op, l, r, expected) in cases {
        let test_ae = AccessPredicateExpression::RelationalOp(op(Box::new(l), Box::new(r)));
        assert_eq!(solve(&test_ae, &ctx), truth(expected));
    }
}

#[test]
fn membership_in_a_context_list() {
    let mut ctx = RequestContext::new();
    ctx.add(
        vec!["AccessContext".to_string(), "roles".to_string()],
        ContextValue::List(vec![text("ROLE_USER"), text("ROLE_EDITOR")]),
    );
    let rule = |role: &str| {
        AccessPredicateExpression::RelationalOp(AccessRelationalOp::In(
            Box::new(Prim::StringLiteral(role.to_string())),
            context_selection_expr("AccessContext", &["roles"]),
        ))
    };
    assert_eq!(solve(&rule("ROLE_EDITOR"), &ctx), AbstractPredicate::True);
    assert_eq!(solve(&rule("ROLE_ADMIN"), &ctx), AbstractPredicate::False);
    // Without the list the rule fails closed
    assert_eq!(solve(&rule("ROLE_EDITOR"), &RequestContext::new()), AbstractPredicate::False);
}

#[test]
fn double_negation_and_identities() {
    let system = test_system();
    let not = |e: AccessPredicateExpression| AccessPredicateExpression::LogicalOp(AccessLogicalExpression::Not(Box::new(e)));
    let ctx = RequestContext::new();
    for b in [true, false] {
        let rule = AccessPredicateExpression::BooleanLiteral(b);
        let double = not(not(AccessPredicateExpression::BooleanLiteral(b)));
        assert_eq!(solve(&double, &ctx), solve(&rule, &ctx));
    }
    let column_rule = boolean_column_selection(column_path(3));
    let expected = AbstractPredicate::Eq(ColumnPath::Physical(&system.dept1_id), ColumnPath::Literal(SqlValue::Bool(true)));
    assert_eq!(solve(&not(not(boolean_column_selection(column_path(3)))), &ctx), expected);
    let and_true = AccessPredicateExpression::LogicalOp(AccessLogicalExpression::And(
        Box::new(AccessPredicateExpression::BooleanLiteral(true)),
        Box::new(column_rule),
    ));
    assert_eq!(solve(&and_true, &ctx), expected);
    let or_false = AccessPredicateExpression::LogicalOp(AccessLogicalExpression::Or(
        Box::new(AccessPredicateExpression::BooleanLiteral(false)),
        Box::new(boolean_column_selection(column_path(3))),
    ));
    assert_eq!(solve(&or_false, &ctx), expected);
}
