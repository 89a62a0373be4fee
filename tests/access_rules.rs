use exo_core::access::{
    AccessContextSelection, AccessPredicateExpression, AccessRelationalOp, ContextValue,
    DatabaseAccessPrimitiveExpression, PostgresAccessSolver, RequestContext,
};
use exo_core::access_builder::{build_access, AccessRule, AnnotationParams, ResolvedAccess};
use exo_core::operation::{
    authorize, compute_service_access_predicate, compute_sql_access_predicate, ExecutionError, SQLOperationKind,
};
use exo_core::predicate::AbstractPredicate;
use exo_core::value::SqlValue;

fn role_is(role: &str) -> AccessPredicateExpression {
    AccessPredicateExpression::RelationalOp(AccessRelationalOp::Eq(
        Box::new(DatabaseAccessPrimitiveExpression::ContextSelection(AccessContextSelection::Select(
            Box::new(AccessContextSelection::Context("AccessContext".to_string())),
            "role".to_string(),
        ))),
        Box::new(DatabaseAccessPrimitiveExpression::StringLiteral(role.to_string())),
    ))
}

fn context_with_role(role: &str) -> RequestContext {
    let mut ctx = RequestContext::new();
    ctx.add(
        vec!["AccessContext".to_string(), "role".to_string()],
        ContextValue::Scalar(SqlValue::Text(role.to_string())),
    );
    ctx
}

#[test]
fn mutation_default_with_update_override() {
    let params = AnnotationParams::Entries(vec![
        ("mutation".to_string(), role_is("ADMIN")),
        ("update".to_string(), role_is("EDITOR")),
    ]);
    let access = build_access(Some(&params));
    let AnnotationParams::Entries(entries) = &params else { unreachable!() };
    assert_eq!(access.update, AccessRule::Expr(&entries[1].1));
    assert_eq!(access.creation, AccessRule::Expr(&entries[0].1));
    assert_eq!(access.delete, AccessRule::Expr(&entries[0].1));
    assert_eq!(access.read, AccessRule::Deny);
}

#[test]
fn missing_annotation_is_permissive() {
    let access = build_access(None);
    assert_eq!(access, ResolvedAccess::permissive());
    assert_eq!(access.read, AccessRule::Allow);
}

#[test]
fn single_rule_applies_to_all_operations() {
    let params = AnnotationParams::Single(role_is("ADMIN"));
    let access = build_access(Some(&params));
    let AnnotationParams::Single(rule) = &params else { unreachable!() };
    for r in [&access.creation, &access.read, &access.update, &access.delete] {
        assert_eq!(*r, AccessRule::Expr(rule));
    }
}

#[test]
fn query_rule_and_missing_mutation_rule() {
    let params = AnnotationParams::Entries(vec![("query".to_string(), AccessPredicateExpression::BooleanLiteral(true))]);
    let access = build_access(Some(&params));
    let AnnotationParams::Entries(entries) = &params else { unreachable!() };
    assert_eq!(access.read, AccessRule::Expr(&entries[0].1));
    assert_eq!(access.creation, AccessRule::Deny);
    assert_eq!(access.update, AccessRule::Deny);
    assert_eq!(access.delete, AccessRule::Deny);
}

#[test]
fn access_predicate_follows_the_operation_kind() {
    let params = AnnotationParams::Entries(vec![
        ("query".to_string(), AccessPredicateExpression::BooleanLiteral(true)),
        ("mutation".to_string(), role_is("ADMIN")),
    ]);
    let access = build_access(Some(&params));
    let ctx = context_with_role("USER");
    let solver = PostgresAccessSolver::new(&ctx);
    assert_eq!(compute_sql_access_predicate(Some(&access), SQLOperationKind::Retrieve, &solver), AbstractPredicate::True);
    assert_eq!(compute_sql_access_predicate(Some(&access), SQLOperationKind::Create, &solver), AbstractPredicate::False);
    assert_eq!(compute_sql_access_predicate(Some(&access), SQLOperationKind::Delete, &solver), AbstractPredicate::False);
    assert_eq!(compute_sql_access_predicate(None, SQLOperationKind::Delete, &solver), AbstractPredicate::True);
    let admin = context_with_role("ADMIN");
    let solver = PostgresAccessSolver::new(&admin);
    assert_eq!(compute_sql_access_predicate(Some(&access), SQLOperationKind::Update, &solver), AbstractPredicate::True);
}

#[test]
fn service_access_needs_both_levels() {
    let type_params = AnnotationParams::Single(AccessPredicateExpression::BooleanLiteral(true));
    let method_params = AnnotationParams::Entries(vec![("query".to_string(), role_is("ADMIN"))]);
    let type_access = build_access(Some(&type_params));
    let method_access = build_access(Some(&method_params));
    let admin = context_with_role("ADMIN");
    let solver = PostgresAccessSolver::new(&admin);
    assert_eq!(compute_service_access_predicate(Some(&type_access), &method_access, true, &solver), AbstractPredicate::True);
    // A mutation is checked against the creation rule, which the method's map denies
    assert_eq!(compute_service_access_predicate(Some(&type_access), &method_access, false, &solver), AbstractPredicate::False);
    let user = context_with_role("USER");
    let solver = PostgresAccessSolver::new(&user);
    assert_eq!(compute_service_access_predicate(None, &method_access, true, &solver), AbstractPredicate::False);
}

#[test]
fn denied_access_is_an_authorization_error() {
    assert_eq!(authorize(AbstractPredicate::False, AbstractPredicate::True), Err(ExecutionError::Authorization));
    assert_eq!(authorize(AbstractPredicate::True, AbstractPredicate::True), Ok(AbstractPredicate::True));
    assert_eq!(authorize(AbstractPredicate::True, AbstractPredicate::False), Ok(AbstractPredicate::False));
}

#[test]
fn duplicate_keys_are_detected() {
    let unique = AnnotationParams::Entries(vec![
        ("query".to_string(), role_is("A")),
        ("mutation".to_string(), role_is("B")),
    ]);
    assert!(unique.has_unique_keys());
    let duplicated = AnnotationParams::Entries(vec![
        ("query".to_string(), role_is("A")),
        ("mutation".to_string(), role_is("B")),
        ("query".to_string(), role_is("C")),
    ]);
    assert!(!duplicated.has_unique_keys());
    assert!(AnnotationParams::Single(role_is("A")).has_unique_keys());
}
