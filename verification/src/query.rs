//! The renderable query value that a derived table wraps: an
//! already-composed query, opaque to this crate except for its fragment
//! sequence and the shape (wire types) of its output columns.

use vstd::prelude::*;
use crate::fragment::{binds_view, dup_fragments, dup_shape, frag_binds, frag_sql, frags_view,
    walk_fragments};
use crate::fragment::{Bind, Fragment, FragmentView, SqlType};

verus! {

/// An already-composed, renderable query: its wire-level fragments and
/// the ordered wire types of its output columns.
#[derive(Debug)]
pub struct SqlQuery {
    pub fragments: Vec<Fragment>,
    pub shape: Vec<SqlType>,
}

/// The mathematical value of a renderable query.
pub struct QueryView {
    pub fragments: Seq<FragmentView>,
    pub shape: Seq<SqlType>,
}

impl View for SqlQuery {
    type V = QueryView;

    open spec fn view(&self) -> QueryView {
        QueryView { fragments: frags_view(self.fragments@), shape: self.shape@ }
    }
}

impl SqlQuery {
    /// Wrap a fragment sequence and its output shape as a renderable query.
    pub fn new(fragments: Vec<Fragment>, shape: Vec<SqlType>) -> (r: SqlQuery)
        ensures
            r@.fragments == frags_view(fragments@),
            r@.shape == shape@,
    {
        SqlQuery { fragments, shape }
    }

    /// An independent deep copy of the query value.
    pub fn duplicate(&self) -> (r: SqlQuery)
        ensures
            r@ == self@,
    {
        SqlQuery { fragments: dup_fragments(&self.fragments), shape: dup_shape(&self.shape) }
    }

    /// Render the query: wire text with numbered placeholders, plus the
    /// ordered bind values.
    pub fn render(&self) -> (r: (String, Vec<Bind>))
        ensures
            r.0@ == frag_sql(self@.fragments, 0),
            binds_view(r.1@) == frag_binds(self@.fragments),
    {
        walk_fragments(&self.fragments)
    }
}

} // verus!
