//! A small data-access library for a single "todo" entity: the record
//! shape with its two-valued status domain, a model access controller
//! that builds parameterized field sets, runs them against a record
//! store under a fixed column projection and translates zero-row
//! outcomes into a typed not-found error, a token-based user-context
//! resolver, and the decision half of the bootstrap script runner.
pub mod bootstrap;
pub mod fields;
pub mod laws;
pub mod mac;
pub mod model;
pub mod numeric;
pub mod security;
pub mod store;
pub mod strutil;
pub mod tasks;
pub mod todo;
