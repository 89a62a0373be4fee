use vstd::prelude::*;
use crate::value::str_eq;
use crate::access::{AccessPredicateExpression, PostgresAccessSolver, solve_spec};
use crate::predicate::AbstractPredicate;

verus! {

/// The parameters of an access annotation: one rule for every operation, or rules keyed
/// by `query`, `mutation`, `create`, `update` and `delete`. The keyed form is a map: no
/// key occurs twice (see `keys_unique`).
#[derive(Debug, PartialEq)]
pub enum AnnotationParams {
    Single(AccessPredicateExpression),
    Entries(Vec<(String, AccessPredicateExpression)>),
}

/// The rule of one operation: allow all, deny all, or an expression of the annotation.
#[derive(Debug, PartialEq)]
pub enum AccessRule<'a> {
    Allow,
    Deny,
    Expr(&'a AccessPredicateExpression),
}

/// The access rules of a type, one for each kind of operation.
#[derive(Debug, PartialEq)]
pub struct ResolvedAccess<'a> {
    pub creation: AccessRule<'a>,
    pub read: AccessRule<'a>,
    pub update: AccessRule<'a>,
    pub delete: AccessRule<'a>,
}

/// The index of the first entry of the map under `key`.
pub open spec fn map_index(entries: Seq<(String, AccessPredicateExpression)>, key: Seq<char>, from: int) -> Option<int>
    decreases entries.len() - from,
{
    if from < 0 || from >= entries.len() {
        None
    } else if entries[from].0@ == key {
        Some(from)
    } else {
        map_index(entries, key, from + 1)
    }
}

/// No two entries of the keyed form share a key.
pub open spec fn keys_unique(params: AnnotationParams) -> bool {
    match params {
        AnnotationParams::Single(_) => true,
        AnnotationParams::Entries(m) => forall|i: int, j: int|
            0 <= i < j < m@.len() ==> (#[trigger] m@[i]).0@ != (#[trigger] m@[j]).0@,
    }
}

impl AnnotationParams {
    /// Whether the keyed form has each key at most once.
    pub fn has_unique_keys(&self) -> (r: bool)
        ensures
            r == keys_unique(*self),
    {
        match self {
            AnnotationParams::Single(_) => true,
            AnnotationParams::Entries(m) => {
                let mut j: usize = 0;
                while j < m.len()
                    invariant
                        *self == AnnotationParams::Entries(*m),
                        j <= m@.len(),
                        forall|a: int, b: int| 0 <= a < b < j ==> (#[trigger] m@[a]).0@ != (#[trigger] m@[b]).0@,
                    decreases m.len() - j,
                {
                    let mut i: usize = 0;
                    while i < j
                        invariant
                            *self == AnnotationParams::Entries(*m),
                            i <= j,
                            j < m@.len(),
                            forall|a: int, b: int| 0 <= a < b < j ==> (#[trigger] m@[a]).0@ != (#[trigger] m@[b]).0@,
                            forall|a: int| 0 <= a < i ==> (#[trigger] m@[a]).0@ != m@[j as int].0@,
                        decreases j - i,
                    {
                        if str_eq(m[i].0.as_str(), m[j].0.as_str()) {
                            assert(m@[i as int].0@ == m@[j as int].0@);
                            proof {
                                if keys_unique(*self) {
                                    let entries = self->Entries_0;
                                    assert(entries@[i as int].0@ != entries@[j as int].0@);
                                }
                            }
                            return false;
                        }
                        i = i + 1;
                    }
                    j = j + 1;
                }
                true
            },
        }
    }
}

/// The rule that the map gives under `key`, or `fallback` when it has none.
pub open spec fn rule_or<'a>(entries: &'a Vec<(String, AccessPredicateExpression)>, key: Seq<char>, fallback: AccessRule<'a>) -> AccessRule<'a> {
    match map_index(entries@, key, 0) {
        Some(i) => AccessRule::Expr(&entries@[i].1),
        None => fallback,
    }
}

/// The rules an annotation gives. Without an annotation everything is allowed. A single
/// rule applies to all four operations. In the map form, `query` gives the read rule,
/// `mutation` the default of `create`, `update` and `delete`, each of which overrides it;
/// what the map leaves out is denied.
pub open spec fn access_spec<'a>(params: Option<&'a AnnotationParams>) -> ResolvedAccess<'a> {
    match params {
        None => ResolvedAccess {
            creation: AccessRule::Allow,
            read: AccessRule::Allow,
            update: AccessRule::Allow,
            delete: AccessRule::Allow,
        },
        Some(AnnotationParams::Single(e)) => ResolvedAccess {
            creation: AccessRule::Expr(e),
            read: AccessRule::Expr(e),
            update: AccessRule::Expr(e),
            delete: AccessRule::Expr(e),
        },
        Some(AnnotationParams::Entries(m)) => {
            let mutation = rule_or(m, "mutation"@, AccessRule::Deny);
            ResolvedAccess {
                creation: rule_or(m, "create"@, mutation),
                read: rule_or(m, "query"@, AccessRule::Deny),
                update: rule_or(m, "update"@, mutation),
                delete: rule_or(m, "delete"@, mutation),
            }
        },
    }
}

fn lookup<'a>(entries: &'a Vec<(String, AccessPredicateExpression)>, key: &str) -> (r: Option<&'a AccessPredicateExpression>)
    ensures
        r is None <==> map_index(entries@, key@, 0) is None,
        r matches Some(e) ==> map_index(entries@, key@, 0) matches Some(i) && e == &entries@[i].1,
{
    let mut i: usize = 0;
    while i < entries.len()
        invariant
            i <= entries@.len(),
            map_index(entries@, key@, 0) == map_index(entries@, key@, i as int),
        decreases entries.len() - i,
    {
        if str_eq(entries[i].0.as_str(), key) {
            return Some(&entries[i].1);
        }
        i = i + 1;
    }
    None
}

fn rule_from<'a>(found: Option<&'a AccessPredicateExpression>, fallback: AccessRule<'a>) -> (r: AccessRule<'a>)
    ensures
        r == (match found {
            Some(e) => AccessRule::Expr(e),
            None => fallback,
        }),
{
    match found {
        Some(e) => AccessRule::Expr(e),
        None => fallback,
    }
}

fn copy_rule<'a>(rule: &AccessRule<'a>) -> (r: AccessRule<'a>)
    ensures
        r == *rule,
{
    match rule {
        AccessRule::Allow => AccessRule::Allow,
        AccessRule::Deny => AccessRule::Deny,
        AccessRule::Expr(e) => AccessRule::Expr(*e),
    }
}

/// Resolves an access annotation into the rules of the four operations (see `access_spec`).
pub fn build_access<'a>(access_annotation_params: Option<&'a AnnotationParams>) -> (r: ResolvedAccess<'a>)
    requires
        access_annotation_params matches Some(p) ==> keys_unique(*p),
    ensures
        r == access_spec(access_annotation_params),
{
    match access_annotation_params {
        None => ResolvedAccess::permissive(),
        Some(AnnotationParams::Single(e)) => ResolvedAccess {
            creation: AccessRule::Expr(e),
            read: AccessRule::Expr(e),
            update: AccessRule::Expr(e),
            delete: AccessRule::Expr(e),
        },
        Some(AnnotationParams::Entries(m)) => {
            let mutation = rule_from(lookup(m, "mutation"), AccessRule::Deny);
            ResolvedAccess {
                creation: rule_from(lookup(m, "create"), copy_rule(&mutation)),
                read: rule_from(lookup(m, "query"), AccessRule::Deny),
                update: rule_from(lookup(m, "update"), copy_rule(&mutation)),
                delete: rule_from(lookup(m, "delete"), mutation),
            }
        },
    }
}

impl<'a> ResolvedAccess<'a> {
    /// Every operation allowed.
    pub fn permissive() -> (r: ResolvedAccess<'a>)
        ensures
            r.creation == AccessRule::<'a>::Allow,
            r.read == AccessRule::<'a>::Allow,
            r.update == AccessRule::<'a>::Allow,
            r.delete == AccessRule::<'a>::Allow,
    {
        ResolvedAccess {
            creation: AccessRule::Allow,
            read: AccessRule::Allow,
            update: AccessRule::Allow,
            delete: AccessRule::Allow,
        }
    }
}

/// What a rule solves to: `True` when allowed, `False` when denied, else its expression
/// solved against the request's context.
pub open spec fn rule_spec<'a>(solver: PostgresAccessSolver<'a>, rule: AccessRule<'a>) -> AbstractPredicate<'a> {
    match rule {
        AccessRule::Allow => AbstractPredicate::True,
        AccessRule::Deny => AbstractPredicate::False,
        AccessRule::Expr(e) => solve_spec(solver.request_context, e),
    }
}

impl<'a> PostgresAccessSolver<'a> {
    /// Solves the rule of one operation.
    pub fn solve_rule(&self, rule: &AccessRule<'a>) -> (r: AbstractPredicate<'a>)
        ensures
            r == rule_spec(*self, *rule),
    {
        match rule {
            AccessRule::Allow => AbstractPredicate::True,
            AccessRule::Deny => AbstractPredicate::False,
            AccessRule::Expr(e) => self.solve(e),
        }
    }
}

/// In the map form, a rule under `create`, `update` or `delete` overrides the one under
/// `mutation` for that operation only; the others keep the `mutation` rule.
pub proof fn lemma_access_hierarchy_override(
    params: &AnnotationParams,
    entries: &Vec<(String, AccessPredicateExpression)>,
    mutation_index: int,
    update_index: int,
)
    requires
        *params == AnnotationParams::Entries(*entries),
        keys_unique(*params),
        map_index(entries@, "mutation"@, 0) == Some(mutation_index),
        map_index(entries@, "update"@, 0) == Some(update_index),
        map_index(entries@, "create"@, 0) is None,
        map_index(entries@, "delete"@, 0) is None,
    ensures
        access_spec(Some(params)).update == AccessRule::Expr(&entries@[update_index].1),
        access_spec(Some(params)).creation == AccessRule::Expr(&entries@[mutation_index].1),
        access_spec(Some(params)).delete == AccessRule::Expr(&entries@[mutation_index].1),
{
}

} // verus!
