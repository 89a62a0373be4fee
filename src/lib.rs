//! Query-compilation core of a GraphQL-to-relational engine: access rules solved
//! against the request's context, abstract predicates bound to the schema, query
//! planning into JSON-shaping selects, SQL rendering with bound parameters, and
//! transaction scripts whose later steps use the rows of earlier ones.

pub mod value;
pub mod column_path;
pub mod predicate;
pub mod access;
pub mod access_builder;
pub mod authentication;
pub mod argument;
pub mod deploy;
pub mod naming;
pub mod operation;
pub mod predicate_mapper;
pub mod query;
pub mod response;
pub mod sql;
pub mod transaction;
pub mod transform;
