//! The derived table: an inner renderable query promoted to a named,
//! strongly-typed virtual table.  Rendering wraps the inner query in
//! parentheses and appends the quoted alias, passing the inner bind
//! parameters through unchanged and in order; composition forwards to the
//! full-query operations.

use vstd::prelude::*;
use vstd::string::StringExecFns;
use crate::fragment::{binds_view, frags_view, frag_binds, frag_sql, lemma_frag_binds_concat,
    lemma_frag_single, lemma_frag_sql_concat, render_debug, walk_fragments};
use crate::fragment::{debug_suffix, shapes_eq, Bind, Fragment, FragmentView};
use crate::full_query::{fq_filter, fq_join, fq_of, fq_select, joins_view, preds_view, FullQuery,
    JoinKind, JoinView, On, Predicate, PredicateView};
use crate::projection::{col_in, cols_view, proj_err, proj_wf, BindingError, Column,
    ProjectionView, SubqueryProjection};
use crate::query::{QueryView, SqlQuery};
use crate::text::{append_quoted, quote};

verus! {

/// A derived table: an immutable value wrapping one inner query and the
/// projection descriptor it is scoped by.
#[derive(Debug)]
pub struct Subquery {
    pub projection: SubqueryProjection,
    pub query: SqlQuery,
}

/// The mathematical value of a derived table.
pub struct SubqueryView {
    pub projection: ProjectionView,
    pub query: QueryView,
}

impl View for Subquery {
    type V = SubqueryView;

    open spec fn view(&self) -> SubqueryView {
        SubqueryView { projection: self.projection@, query: self.query@ }
    }
}

/// A well-formed derived table: a well-formed projection whose recorded
/// inner shape is exactly the wrapped query's output shape.
pub open spec fn subq_wf(s: SubqueryView) -> bool {
    proj_wf(s.projection) && s.query.shape == s.projection.inner_shape
}

/// The fragments of a derived table: `(`, the inner query's own
/// fragments, then `) AS ` and the quoted alias, with no other text
/// interposed.
pub open spec fn subq_frags(s: SubqueryView) -> Seq<FragmentView> {
    seq![FragmentView::Sql("("@)] + s.query.fragments + seq![
        FragmentView::Sql(") AS "@ + quote(s.projection.alias)),
    ]
}

/// The rendered text of a derived table whose inner query is numbered
/// after `k` preceding bind parameters.
pub open spec fn subq_sql(s: SubqueryView, k: nat) -> Seq<char> {
    "("@ + frag_sql(s.query.fragments, k) + ") AS "@ + quote(s.projection.alias)
}

/// Walking a derived table's fragments yields its rendered text — the
/// parenthesized inner query with the quoted alias appended — and exactly
/// the inner query's own bind values, unmodified and unreordered.
pub proof fn lemma_subq_frags(s: SubqueryView, k: nat)
    ensures
        frag_sql(subq_frags(s), k) == subq_sql(s, k),
        frag_binds(subq_frags(s)) == frag_binds(s.query.fragments),
{
    let open_frag = seq![FragmentView::Sql("("@)];
    let close_frag = seq![FragmentView::Sql(") AS "@ + quote(s.projection.alias))];
    lemma_frag_single(FragmentView::Sql("("@), k);
    lemma_frag_binds_concat(open_frag, s.query.fragments);
    lemma_frag_sql_concat(open_frag, s.query.fragments, k);
    let head = open_frag + s.query.fragments;
    lemma_frag_binds_concat(head, close_frag);
    lemma_frag_sql_concat(head, close_frag, k);
    lemma_frag_single(
        FragmentView::Sql(") AS "@ + quote(s.projection.alias)),
        k + frag_binds(head).len(),
    );
    assert(subq_frags(s) == head + close_frag);
    assert(frag_binds(open_frag) =~= Seq::<crate::fragment::BindView>::empty());
    assert(frag_binds(head) =~= frag_binds(s.query.fragments));
    assert(frag_binds(subq_frags(s)) =~= frag_binds(s.query.fragments));
    assert(frag_sql(subq_frags(s), k) =~= subq_sql(s, k));
}

impl Subquery {
    /// Emit the derived table's fragments: `(`, the inner query, `) AS `
    /// and the quoted alias.
    #[verifier::loop_isolation(false)]
    pub fn walk_ast(&self, pass: &mut Vec<Fragment>)
        ensures
            frags_view(final(pass)@) == frags_view(old(pass)@) + subq_frags(self@),
    {
        pass.push(Fragment::Sql("(".to_owned()));
        proof {
            assert(frags_view(pass@) =~= frags_view(old(pass)@) + seq![
                FragmentView::Sql("("@),
            ]);
        }
        let ghost before_inner = frags_view(pass@);
        let mut i: usize = 0;
        while i < self.query.fragments.len()
            invariant
                0 <= i <= self.query.fragments@.len(),
                frags_view(pass@) == before_inner + frags_view(
                    self.query.fragments@.take(i as int),
                ),
            decreases self.query.fragments@.len() - i,
        {
            let ghost prev = frags_view(pass@);
            pass.push(self.query.fragments[i].dup());
            proof {
                assert(frags_view(pass@) =~= prev + seq![self.query.fragments@[i as int]@]);
                assert(frags_view(self.query.fragments@.take(i as int + 1)) =~= frags_view(
                    self.query.fragments@.take(i as int),
                ) + seq![self.query.fragments@[i as int]@]);
                assert(frags_view(pass@) =~= before_inner + frags_view(
                    self.query.fragments@.take(i as int + 1),
                ));
            }
            i = i + 1;
        }
        proof {
            assert(self.query.fragments@.take(self.query.fragments@.len() as int)
                =~= self.query.fragments@);
        }
        let mut tail: String = ") AS ".to_owned();
        append_quoted(&mut tail, self.projection.alias.as_str());
        let ghost tail_view = tail@;
        let ghost before_tail = frags_view(pass@);
        pass.push(Fragment::Sql(tail));
        proof {
            assert(tail_view =~= ") AS "@ + quote(self@.projection.alias));
            assert(frags_view(pass@) =~= before_tail + seq![FragmentView::Sql(tail_view)]);
            assert(frags_view(pass@) =~= frags_view(old(pass)@) + subq_frags(self@));
        }
    }

    /// Render the derived table on its own: `(` + the inner query's text
    /// + `) AS ` + the quoted alias, with the inner query's own bind
    /// values, in the same order.
    pub fn render(&self) -> (r: (String, Vec<Bind>))
        ensures
            r.0@ == "("@ + frag_sql(self@.query.fragments, 0) + ") AS "@ + quote(
                self@.projection.alias,
            ),
            binds_view(r.1@) == frag_binds(self@.query.fragments),
    {
        let mut pass: Vec<Fragment> = Vec::new();
        self.walk_ast(&mut pass);
        proof {
            assert(frags_view(pass@) =~= subq_frags(self@));
            lemma_subq_frags(self@, 0);
        }
        walk_fragments(&pass)
    }

    /// Render the derived table in the debug format `<sql> -- binds: [..]`.
    pub fn debug_string(&self) -> (r: String)
        ensures
            r@ == subq_sql(self@, 0) + debug_suffix(frag_binds(self@.query.fragments)),
    {
        let (sql, binds) = self.render();
        render_debug(sql.as_str(), &binds)
    }

    /// An independent value with deep-copied contents: later composition
    /// on either value cannot affect the other.
    pub fn duplicate(&self) -> (r: Subquery)
        ensures
            r@ == self@,
    {
        Subquery { projection: self.projection.duplicate(), query: self.query.duplicate() }
    }

    /// The derived table is its own from clause.
    pub fn from_clause(&self) -> (r: Subquery)
        ensures
            r@ == self@,
    {
        self.duplicate()
    }

    /// The projection's column tuple: the implicit select list, in
    /// declaration order.
    pub fn default_selection(&self) -> (r: Vec<Column>)
        ensures
            cols_view(r@) == self@.projection.columns,
    {
        let p = self.projection.duplicate();
        p.columns
    }

    /// Promote the derived table to a full query selecting its default
    /// columns from it.
    pub fn as_query(self) -> (r: FullQuery)
        ensures
            r@ == fq_of(self@),
    {
        let ghost sv = self@;
        let selection = self.default_selection();
        let q = FullQuery { from: self, joins: Vec::new(), selection, predicates: Vec::new() };
        proof {
            assert(joins_view(q.joins@) =~= Seq::<JoinView>::empty());
            assert(preds_view(q.predicates@) =~= Seq::<PredicateView>::empty());
            assert(q@ == fq_of(sv));
        }
        q
    }

    /// Filter the derived table: promote it to a full query and compose
    /// the predicate there.  A column of another alias fails to bind.
    pub fn filter(self, predicate: Predicate) -> (r: Result<FullQuery, BindingError>)
        ensures
            (r is Ok) == col_in(predicate@.column, self@.projection.columns),
            (r matches Ok(f) ==> f@ == fq_filter(fq_of(self@), predicate@)),
            (r matches Err(e) ==> e == BindingError::ColumnOutOfScope),
    {
        let ghost sv = self@;
        let q = self.as_query();
        let r = q.filter(predicate);
        proof {
            assert(fq_of(sv).joins.len() == 0);
        }
        r
    }

    /// Select from the derived table: promote it to a full query and
    /// replace the selection there.  A column of another alias fails to
    /// bind.
    pub fn select(self, selection: Vec<Column>) -> (r: Result<FullQuery, BindingError>)
        ensures
            (r is Ok) == (forall|i: int| 0 <= i < selection@.len() ==> col_in(
                #[trigger] cols_view(selection@)[i],
                self@.projection.columns,
            )),
            (r matches Ok(f) ==> f@ == fq_select(fq_of(self@), cols_view(selection@))),
            (r matches Err(e) ==> e == BindingError::ColumnOutOfScope),
    {
        let ghost sv = self@;
        let q = self.as_query();
        let r = q.select(selection);
        proof {
            assert(fq_of(sv).joins.len() == 0);
            assert forall|i: int| 0 <= i < selection@.len() implies (crate::full_query::col_in_scope(
                #[trigger] cols_view(selection@)[i],
                fq_of(sv),
            ) == col_in(cols_view(selection@)[i], sv.projection.columns)) by {
            }
        }
        r
    }

    /// Join another derived table onto this one: promote this one to a
    /// full query and compose the join there.  Each `ON` column must be
    /// scoped to one of the two sides.
    pub fn join(self, rhs: Subquery, kind: JoinKind, on: On) -> (r: Result<
        FullQuery,
        BindingError,
    >)
        ensures
            (r is Ok) == ((col_in(on@.left, self@.projection.columns) || col_in(
                on@.left,
                rhs@.projection.columns,
            )) && (col_in(on@.right, self@.projection.columns) || col_in(
                on@.right,
                rhs@.projection.columns,
            ))),
            (r matches Ok(f) ==> f@ == fq_join(
                fq_of(self@),
                (JoinView { kind: kind, rhs: rhs@, on: on@ }),
            )),
            (r matches Err(e) ==> e == BindingError::ColumnOutOfScope),
    {
        let ghost sv = self@;
        let q = self.as_query();
        let r = q.join(rhs, kind, on);
        proof {
            assert(fq_of(sv).joins.len() == 0);
        }
        r
    }
}

impl Column {
    /// The "belongs to this derived table" relation: whether this
    /// descriptor is one of the columns the table's projection declares.
    pub fn appears_on(&self, table: &Subquery) -> (r: bool)
        ensures
            r == col_in(self@, table@.projection.columns),
    {
        self.among(&table.projection.columns)
    }
}

/// Promotion of a renderable query value to a derived table.
pub trait AsSubquery: View<V = QueryView> + Sized {
    /// Promote the query to a derived table scoped by the given
    /// projection.  An ill-formed projection, or one whose recorded
    /// inner shape differs from the query's actual output shape, is
    /// rejected here — at binding time, before the derived table can be
    /// used.
    fn as_subquery(self, projection: SubqueryProjection) -> (r: Result<Subquery, BindingError>)
        ensures
            (r is Ok) == (proj_wf(projection@) && self@.shape == projection@.inner_shape),
            (r matches Ok(s) ==> s@ == (SubqueryView { projection: projection@, query: self@ })
                && subq_wf(s@)),
            (r matches Err(e) ==> e == (if !proj_wf(projection@) {
                proj_err(projection@)
            } else {
                BindingError::ShapeMismatch
            })),
    ;
}

impl AsSubquery for SqlQuery {
    fn as_subquery(self, projection: SubqueryProjection) -> (r: Result<Subquery, BindingError>) {
        match projection.check() {
            Err(e) => Err(e),
            Ok(()) => {
                if !shapes_eq(&self.shape, &projection.inner_shape) {
                    Err(BindingError::ShapeMismatch)
                } else {
                    Ok(Subquery { projection, query: self })
                }
            },
        }
    }
}

} // verus!
