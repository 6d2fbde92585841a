//! A derived-table (subquery alias) layer for a value-level SQL query model.
//!
//! An already-composed query, represented as a sequence of renderable
//! fragments, can be promoted to a named, strongly-typed virtual table and
//! then filtered, selected from and joined exactly as if it were a base
//! table.  Every exposed column is scoped to the alias it was generated
//! for, and rendering a derived table is proved to wrap the inner query in
//! parentheses, append the quoted alias, and pass the inner bind
//! parameters through unchanged and in order.

pub mod fragment;
pub mod full_query;
pub mod laws;
pub mod projection;
pub mod query;
pub mod subquery;
pub mod text;

pub use crate::fragment::{Bind, BindView, Fragment, FragmentView, SqlType};
pub use crate::full_query::{FullQuery, FullQueryView, Join, JoinKind, JoinView, On, OnView,
    Predicate, PredicateView};
pub use crate::projection::{BindingError, Column, ColumnView, ProjectionView, SubqueryProjection};
pub use crate::query::{QueryView, SqlQuery};
pub use crate::subquery::{AsSubquery, Subquery, SubqueryView};
